use crate::text::dec_rep;
use crate::text::u32_to_decimal;
use vstd::prelude::*;
use vstd::string::StringExecFns;

verus! {

/// A named entity with a non-negative integer balance. The balance
/// starts at zero and changes only through deposits and withdrawals.
pub struct Account {
    pub id: u32,
    pub balance: i32,
    pub holder: String,
}

/// The summary line of an account:
/// "Account {id}: Holder: {holder}, Balance: {balance}".
pub open spec fn account_text(a: Account) -> Seq<char> {
    "Account "@ + dec_rep(a.id as nat) + ": Holder: "@ + a.holder@ + ", Balance: "@ + dec_rep(
        a.balance as nat,
    )
}

impl Account {
    /// The account's invariant: the balance never goes negative.
    pub open spec fn wf(&self) -> bool {
        self.balance >= 0
    }

    /// Opens an account with the given identifier and holder, at
    /// balance zero.
    pub fn new(id: u32, holder: String) -> (a: Account)
        ensures
            a.id == id,
            a.holder == holder,
            a.balance == 0,
            a.wf(),
    {
        Account { id, balance: 0, holder }
    }

    /// Adds a non-negative amount to the balance and returns the new
    /// balance: the balance grows by exactly `amount`.
    pub fn deposit(&mut self, amount: i32) -> (b: i32)
        requires
            old(self).wf(),
            0 <= amount,
            old(self).balance + amount <= i32::MAX,
        ensures
            final(self).balance == old(self).balance + amount,
            final(self).id == old(self).id,
            final(self).holder == old(self).holder,
            b == final(self).balance,
            final(self).wf(),
    {
        self.balance = self.balance + amount;
        self.balance
    }

    /// Takes a non-negative amount off the balance and returns the new
    /// balance; a withdrawal beyond the balance is rejected and leaves
    /// the balance unchanged.
    pub fn withdraw(&mut self, amount: i32) -> (b: i32)
        requires
            old(self).wf(),
            0 <= amount,
        ensures
            amount <= old(self).balance ==> final(self).balance == old(self).balance - amount,
            amount > old(self).balance ==> final(self).balance == old(self).balance,
            final(self).id == old(self).id,
            final(self).holder == old(self).holder,
            b == final(self).balance,
            final(self).wf(),
    {
        if self.balance >= amount {
            self.balance = self.balance - amount;
        }
        self.balance
    }

    /// Renders the account's summary line.
    pub fn summary(&self) -> (s: String)
        requires
            self.wf(),
        ensures
            s@ == account_text(*self),
    {
        let id_text = u32_to_decimal(self.id);
        let balance_text = u32_to_decimal(self.balance as u32);
        let s = String::from_str("Account ").concat(id_text.as_str()).concat(
            ": Holder: ",
        ).concat(self.holder.as_str()).concat(", Balance: ").concat(balance_text.as_str());
        s
    }
}

/// The sum of the balances of a sequence of accounts.
pub open spec fn total_of(s: Seq<Account>) -> int
    decreases s.len(),
{
    if s.len() == 0 {
        0
    } else {
        s[0].balance + total_of(s.drop_first())
    }
}

/// A prefix of well-formed accounts contributes at most the whole sum,
/// and at least zero.
proof fn lemma_total_of_prefix(s: Seq<Account>, n: int)
    requires
        0 <= n <= s.len(),
        forall|i: int| 0 <= i < s.len() ==> s[i].wf(),
    ensures
        0 <= total_of(s.subrange(0, n)),
        total_of(s.subrange(0, n)) <= total_of(s),
        n < s.len() ==> total_of(s.subrange(0, n + 1)) == total_of(s.subrange(0, n))
            + s[n].balance,
    decreases s.len(),
{
    if s.len() == 0 {
        assert(s.subrange(0, n) =~= s);
    } else if n == 0 {
        assert(s.subrange(0, 0) =~= Seq::<Account>::empty());
        assert(s.subrange(0, 1) =~= seq![s[0]]);
        assert(seq![s[0]].drop_first() =~= Seq::<Account>::empty());
        lemma_total_of_prefix(s.drop_first(), 0);
    } else {
        let t = s.drop_first();
        lemma_total_of_prefix(t, n - 1);
        assert(s.subrange(0, n).drop_first() =~= t.subrange(0, n - 1));
        if n < s.len() {
            assert(s.subrange(0, n + 1).drop_first() =~= t.subrange(0, n));
        }
    }
}

/// An insertion-ordered collection of accounts with aggregate queries.
pub struct Bank {
    pub accounts: Vec<Account>,
}

impl Bank {
    /// The bank's invariant: every member account is well formed.
    pub open spec fn wf(&self) -> bool {
        forall|i: int| 0 <= i < self.accounts@.len() ==> self.accounts@[i].wf()
    }

    /// Opens a bank with no accounts.
    pub fn new() -> (bank: Bank)
        ensures
            bank.accounts@ == Seq::<Account>::empty(),
            bank.wf(),
    {
        let bank = Bank { accounts: Vec::new() };
        proof {
            assert(bank.accounts@ =~= Seq::<Account>::empty());
        }
        bank
    }

    /// Appends an account; the bank owns it from here on.
    pub fn add_account(&mut self, account: Account)
        requires
            old(self).wf(),
            account.wf(),
        ensures
            final(self).accounts@ == old(self).accounts@.push(account),
            final(self).wf(),
    {
        self.accounts.push(account);
    }

    /// The sum of all member balances.
    pub fn total_balance(&self) -> (t: i32)
        requires
            self.wf(),
            total_of(self.accounts@) <= i32::MAX,
        ensures
            t == total_of(self.accounts@),
    {
        let mut t: i32 = 0;
        let n: usize = self.accounts.len();
        for k in 0..n
            invariant
                n == self.accounts@.len(),
                self.wf(),
                total_of(self.accounts@) <= i32::MAX,
                t == total_of(self.accounts@.subrange(0, k as int)),
        {
            proof {
                lemma_total_of_prefix(self.accounts@, k as int);
                lemma_total_of_prefix(self.accounts@, k + 1);
            }
            t = t + self.accounts[k].balance;
        }
        proof {
            assert(self.accounts@.subrange(0, n as int) =~= self.accounts@);
        }
        t
    }

    /// The summary lines of all member accounts, in insertion order.
    pub fn summary(&self) -> (lines: Vec<String>)
        requires
            self.wf(),
        ensures
            lines@.len() == self.accounts@.len(),
            forall|i: int|
                0 <= i < lines@.len() ==> lines@[i]@ == account_text(self.accounts@[i]),
    {
        let mut lines: Vec<String> = Vec::new();
        let n: usize = self.accounts.len();
        for k in 0..n
            invariant
                n == self.accounts@.len(),
                self.wf(),
                lines@.len() == k,
                forall|i: int| 0 <= i < k ==> lines@[i]@ == account_text(self.accounts@[i]),
        {
            let line = self.accounts[k].summary();
            lines.push(line);
        }
        lines
    }
}

} // verus!
