use vstd::prelude::*;
use vstd::string::StringExecFns;

verus! {

/// A closed tagged union of three media kinds, used only for
/// construction and formatted display.
pub enum Media {
    Book { title: String, author: String },
    Movie { title: String, director: String },
    Audiobook { title: String },
}

/// The rendered text of a media value: the variant tag followed by
/// every field, each field verbatim.
pub open spec fn media_text(m: Media) -> Seq<char> {
    match m {
        Media::Book { title, author } => "Book { title: "@ + title@ + ", author: "@ + author@
            + " }"@,
        Media::Movie { title, director } => "Movie { title: "@ + title@ + ", director: "@
            + director@ + " }"@,
        Media::Audiobook { title } => "Audiobook { title: "@ + title@ + " }"@,
    }
}

/// The rendered text opens with the variant's tag character.
proof fn lemma_media_text_first_char(m: Media)
    ensures
        m is Book ==> media_text(m)[0] == 'B',
        m is Movie ==> media_text(m)[0] == 'M',
        m is Audiobook ==> media_text(m)[0] == 'A',
{
    reveal_strlit("Book { title: ");
    reveal_strlit("Movie { title: ");
    reveal_strlit("Audiobook { title: ");
    match m {
        Media::Book { title, author } => {
            let p = "Book { title: "@;
            assert((p + title@)[0] == 'B');
            assert((p + title@ + ", author: "@)[0] == 'B');
            assert((p + title@ + ", author: "@ + author@)[0] == 'B');
            assert(media_text(m)[0] == 'B');
        },
        Media::Movie { title, director } => {
            let p = "Movie { title: "@;
            assert((p + title@)[0] == 'M');
            assert((p + title@ + ", director: "@)[0] == 'M');
            assert((p + title@ + ", director: "@ + director@)[0] == 'M');
            assert(media_text(m)[0] == 'M');
        },
        Media::Audiobook { title } => {
            let p = "Audiobook { title: "@;
            assert((p + title@)[0] == 'A');
            assert(media_text(m)[0] == 'A');
        },
    }
}

/// The rendered text reproduces every field verbatim: each field is a
/// slice of the text, at a position fixed by the variant and the
/// lengths of the fields before it. No field is lost in rendering.
pub proof fn lemma_media_text_carries_fields(m: Media)
    ensures
        (m matches Media::Book { title, author } ==> {
            let tl = title@.len() as int;
            let al = author@.len() as int;
            &&& media_text(m).len() == 26 + tl + al
            &&& media_text(m).subrange(14, 14 + tl) == title@
            &&& media_text(m).subrange(24 + tl, 24 + tl + al) == author@
        }),
        (m matches Media::Movie { title, director } ==> {
            let tl = title@.len() as int;
            let dl = director@.len() as int;
            &&& media_text(m).len() == 29 + tl + dl
            &&& media_text(m).subrange(15, 15 + tl) == title@
            &&& media_text(m).subrange(27 + tl, 27 + tl + dl) == director@
        }),
        (m matches Media::Audiobook { title } ==> {
            let tl = title@.len() as int;
            &&& media_text(m).len() == 21 + tl
            &&& media_text(m).subrange(19, 19 + tl) == title@
        }),
{
    reveal_strlit("Book { title: ");
    reveal_strlit("Movie { title: ");
    reveal_strlit("Audiobook { title: ");
    reveal_strlit(", author: ");
    reveal_strlit(", director: ");
    reveal_strlit(" }");
    match m {
        Media::Book { title, author } => {
            let tl: int = title@.len() as int;
            let al: int = author@.len() as int;
            let u = "Book { title: "@ + title@;
            let w = u + ", author: "@;
            let x = w + author@;
            assert(media_text(m) == x + " }"@);
            assert(media_text(m).subrange(14, 14 + tl) =~= title@) by {
                assert forall|k: int| 0 <= k < tl implies media_text(m)[14 + k] == title@[k] by {
                    assert(u[14 + k] == title@[k]);
                    assert(w[14 + k] == u[14 + k]);
                    assert(x[14 + k] == w[14 + k]);
                }
            }
            assert(media_text(m).subrange(24 + tl, 24 + tl + al) =~= author@) by {
                assert forall|k: int| 0 <= k < al implies media_text(m)[24 + tl + k] == author@[k]
                by {
                    assert(x[24 + tl + k] == author@[k]);
                }
            }
        },
        Media::Movie { title, director } => {
            let tl: int = title@.len() as int;
            let dl: int = director@.len() as int;
            let u = "Movie { title: "@ + title@;
            let w = u + ", director: "@;
            let x = w + director@;
            assert(media_text(m) == x + " }"@);
            assert(media_text(m).subrange(15, 15 + tl) =~= title@) by {
                assert forall|k: int| 0 <= k < tl implies media_text(m)[15 + k] == title@[k] by {
                    assert(u[15 + k] == title@[k]);
                    assert(w[15 + k] == u[15 + k]);
                    assert(x[15 + k] == w[15 + k]);
                }
            }
            assert(media_text(m).subrange(27 + tl, 27 + tl + dl) =~= director@) by {
                assert forall|k: int| 0 <= k < dl implies media_text(m)[27 + tl + k] == director@[k]
                by {
                    assert(x[27 + tl + k] == director@[k]);
                }
            }
        },
        Media::Audiobook { title } => {
            let tl: int = title@.len() as int;
            let u = "Audiobook { title: "@ + title@;
            assert(media_text(m) == u + " }"@);
            assert(media_text(m).subrange(19, 19 + tl) =~= title@) by {
                assert forall|k: int| 0 <= k < tl implies media_text(m)[19 + k] == title@[k] by {
                    assert(u[19 + k] == title@[k]);
                }
            }
        },
    }
}

/// Two media values with the same rendered text are of the same
/// variant: the text's first character already tells the tags apart.
pub proof fn lemma_media_text_tags_distinct(m1: Media, m2: Media)
    requires
        media_text(m1) == media_text(m2),
    ensures
        m1 is Book <==> m2 is Book,
        m1 is Movie <==> m2 is Movie,
        m1 is Audiobook <==> m2 is Audiobook,
{
    lemma_media_text_first_char(m1);
    lemma_media_text_first_char(m2);
    assert(media_text(m1)[0] == media_text(m2)[0]);
}

impl Media {
    /// Renders the value, reproducing the variant tag and all fields.
    pub fn render(self) -> (s: String)
        ensures
            s@ == media_text(self),
    {
        match self {
            Media::Book { title, author } => String::from_str("Book { title: ").concat(
                title.as_str(),
            ).concat(", author: ").concat(author.as_str()).concat(" }"),
            Media::Movie { title, director } => String::from_str("Movie { title: ").concat(
                title.as_str(),
            ).concat(", director: ").concat(director.as_str()).concat(" }"),
            Media::Audiobook { title } => String::from_str("Audiobook { title: ").concat(
                title.as_str(),
            ).concat(" }"),
        }
    }
}

} // verus!
