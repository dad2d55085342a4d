use book_catalog::book_operator::books_key_exec;
use book_catalog::codec::{dec_string, decode_page, encode_page};
use book_catalog::model::Book;

fn mk_book(id: u32, title: &str, author: &str) -> Book {
    Book {
        id,
        title: title.to_string(),
        author: author.to_string(),
        published_at: "1979-10-12".to_string(),
        description: "a body\nwith a line break and a 42\n".to_string(),
        isbn: "0-345-39180-2".to_string(),
        total_pages: 224,
        created_at: "2024-01-02 03:04:05.678".to_string(),
        updated_at: "2024-01-02 03:04:05.678".to_string(),
    }
}

fn same_book(a: &Book, b: &Book) -> bool {
    a.id == b.id
        && a.title == b.title
        && a.author == b.author
        && a.published_at == b.published_at
        && a.description == b.description
        && a.isbn == b.isbn
        && a.total_pages == b.total_pages
        && a.created_at == b.created_at
        && a.updated_at == b.updated_at
}

#[test]
fn decimal_rendering_exact_values() {
    assert_eq!(dec_string(0), "0");
    assert_eq!(dec_string(7), "7");
    assert_eq!(dec_string(42), "42");
    assert_eq!(dec_string(1234567890), "1234567890");
    assert_eq!(dec_string(u64::MAX), "18446744073709551615");
}

#[test]
fn listing_cache_key_is_prefix_dash_offset() {
    assert_eq!(books_key_exec(0), "lr-books-0");
    assert_eq!(books_key_exec(42), "lr-books-42");
    assert_eq!(books_key_exec(u32::MAX), "lr-books-4294967295");
}

#[test]
fn empty_page_round_trips() {
    let page: Vec<Book> = Vec::new();
    let text = encode_page(&page);
    assert_eq!(text, "0\n");
    let back = decode_page(&text).unwrap();
    assert_eq!(back.len(), 0);
}

#[test]
fn page_round_trips_with_awkward_field_contents() {
    let page = vec![
        mk_book(1, "The Hitchhiker's Guide", "Douglas Adams"),
        mk_book(2, "a title\nwith 3\nnewlines\n", "nobody"),
        mk_book(u32::MAX, "", "Ünïcödé — Ärzte"),
    ];
    let text = encode_page(&page);
    let back = decode_page(&text).unwrap();
    assert_eq!(back.len(), page.len());
    for (a, b) in page.iter().zip(back.iter()) {
        assert!(same_book(a, b));
    }
}

#[test]
fn malformed_texts_do_not_decode() {
    assert!(decode_page("").is_none());
    assert!(decode_page("x").is_none());
    assert!(decode_page("1\n").is_none());
    assert!(decode_page("2\n1\n5\n1\nx1\ny").is_none());
    assert!(decode_page("-1\n").is_none());
    assert!(decode_page("99999999999999999999999999\n").is_none());
}

#[test]
fn trailing_garbage_does_not_decode() {
    let page = vec![mk_book(5, "clean", "writer")];
    let mut text = encode_page(&page);
    assert!(decode_page(&text).is_some());
    text.push(' ');
    assert!(decode_page(&text).is_none());
}

#[test]
fn truncated_page_does_not_decode() {
    let page = vec![mk_book(5, "clean", "writer")];
    let text = encode_page(&page);
    let cut: String = text.chars().take(text.chars().count() - 3).collect();
    assert!(decode_page(&cut).is_none());
}
