use card_ledger::media::Media;
use card_ledger::text::u32_to_decimal;

#[test]
fn book_renders_all_fields() {
    let m = Media::Book {
        title: String::from("Bad Book"),
        author: String::from("Unknown"),
    };
    assert_eq!(m.render(), "Book { title: Bad Book, author: Unknown }");
}

#[test]
fn movie_renders_all_fields() {
    let m = Media::Movie {
        title: String::from("Good Movie"),
        director: String::from("Famous Director"),
    };
    assert_eq!(m.render(), "Movie { title: Good Movie, director: Famous Director }");
}

#[test]
fn audiobook_renders_all_fields() {
    let m = Media::Audiobook {
        title: String::from("Cool Audiobook"),
    };
    assert_eq!(m.render(), "Audiobook { title: Cool Audiobook }");
}

#[test]
fn variants_render_with_distinct_tags() {
    let book = Media::Book {
        title: String::from("Same Title"),
        author: String::from("X"),
    };
    let movie = Media::Movie {
        title: String::from("Same Title"),
        director: String::from("X"),
    };
    let audiobook = Media::Audiobook {
        title: String::from("Same Title"),
    };
    let b = book.render();
    let m = movie.render();
    let a = audiobook.render();
    assert_ne!(b, m);
    assert_ne!(b, a);
    assert_ne!(m, a);
}

#[test]
fn decimal_rendering_is_exact() {
    assert_eq!(u32_to_decimal(0), "0");
    assert_eq!(u32_to_decimal(7), "7");
    assert_eq!(u32_to_decimal(10), "10");
    assert_eq!(u32_to_decimal(2350), "2350");
    assert_eq!(u32_to_decimal(1000), "1000");
    assert_eq!(u32_to_decimal(4294967295), "4294967295");
}
