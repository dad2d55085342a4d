//! The cache-entry wire format for pages of books.
//!
//! A page is rendered as a count followed by each book; every number is
//! written in decimal followed by a newline, and every text field is written
//! as its character count followed by a newline and then its characters.
//! Decoding is the exact inverse of encoding: `lemma_decode_encode` proves
//! that a decoded page is the page that was encoded.

use vstd::prelude::*;

use crate::model::{Book, BookView};

verus! {

/// The decimal digit character for `d` (0 through 9).
pub open spec fn digit_char(d: int) -> char {
    if d == 0 {
        '0'
    } else if d == 1 {
        '1'
    } else if d == 2 {
        '2'
    } else if d == 3 {
        '3'
    } else if d == 4 {
        '4'
    } else if d == 5 {
        '5'
    } else if d == 6 {
        '6'
    } else if d == 7 {
        '7'
    } else if d == 8 {
        '8'
    } else {
        '9'
    }
}

/// The value of a decimal digit character, or -1 for any other character.
pub open spec fn digit_val(c: char) -> int {
    match c {
        '0' => 0,
        '1' => 1,
        '2' => 2,
        '3' => 3,
        '4' => 4,
        '5' => 5,
        '6' => 6,
        '7' => 7,
        '8' => 8,
        '9' => 9,
        _ => -1,
    }
}

/// The usual decimal rendering of `n`, most significant digit first, no
/// leading zeros (except for zero itself).
pub open spec fn dec_rep(n: nat) -> Seq<char>
    decreases n,
{
    if n < 10 {
        seq![digit_char(n as int)]
    } else {
        dec_rep(n / 10).push(digit_char((n % 10) as int))
    }
}

/// Every character of a decimal rendering is a digit.
pub proof fn lemma_dec_rep_digits(n: nat)
    ensures
        forall|i: int| 0 <= i < dec_rep(n).len() ==> digit_val(#[trigger] dec_rep(n)[i]) >= 0,
        dec_rep(n).len() >= 1,
    decreases n,
{
    if n >= 10 {
        lemma_dec_rep_digits(n / 10);
    }
}

fn digit_str(d: u64) -> (r: &'static str)
    requires
        d < 10,
    ensures
        r@ =~= seq![digit_char(d as int)],
{
    proof {
        reveal_strlit("0");
        reveal_strlit("1");
        reveal_strlit("2");
        reveal_strlit("3");
        reveal_strlit("4");
        reveal_strlit("5");
        reveal_strlit("6");
        reveal_strlit("7");
        reveal_strlit("8");
        reveal_strlit("9");
    }
    match d {
        0 => "0",
        1 => "1",
        2 => "2",
        3 => "3",
        4 => "4",
        5 => "5",
        6 => "6",
        7 => "7",
        8 => "8",
        _ => "9",
    }
}

/// Appends the decimal rendering of `n` to `s`.
pub fn push_dec(s: &mut String, n: u64)
    ensures
        final(s)@ == old(s)@ + dec_rep(n as nat),
    decreases n,
{
    if n < 10 {
        s.append(digit_str(n));
        assert(s@ =~= old(s)@ + dec_rep(n as nat));
    } else {
        push_dec(s, n / 10);
        s.append(digit_str(n % 10));
        assert(s@ =~= old(s)@ + dec_rep(n as nat));
    }
}

/// The decimal rendering of `n` as a fresh string.
pub fn dec_string(n: u64) -> (s: String)
    ensures
        s@ == dec_rep(n as nat),
{
    let mut s = String::new();
    push_dec(&mut s, n);
    assert(s@ =~= dec_rep(n as nat));
    s
}

/// The value of a block of digit characters read most significant first,
/// continuing from an already accumulated value.
pub open spec fn eval_digits(ds: Seq<char>, acc: int) -> int
    decreases ds.len(),
{
    if ds.len() == 0 {
        acc
    } else {
        eval_digits(ds.skip(1), acc * 10 + digit_val(ds[0]))
    }
}

proof fn lemma_eval_digits_concat(a: Seq<char>, b: Seq<char>, acc: int)
    ensures
        eval_digits(a + b, acc) == eval_digits(b, eval_digits(a, acc)),
    decreases a.len(),
{
    if a.len() == 0 {
        assert(a + b =~= b);
    } else {
        assert((a + b).skip(1) =~= a.skip(1) + b);
        lemma_eval_digits_concat(a.skip(1), b, acc * 10 + digit_val(a[0]));
    }
}

/// When every character of `ds` is a digit, evaluation never shrinks the
/// accumulated value.
proof fn lemma_eval_monotone(ds: Seq<char>, acc: int)
    requires
        acc >= 0,
        forall|i: int| 0 <= i < ds.len() ==> digit_val(#[trigger] ds[i]) >= 0,
    ensures
        eval_digits(ds, acc) >= acc,
    decreases ds.len(),
{
    if ds.len() > 0 {
        assert(digit_val(ds[0]) >= 0);
        assert(forall|i: int|
            0 <= i < ds.skip(1).len() ==> digit_val(#[trigger] ds.skip(1)[i]) >= 0);
        lemma_eval_monotone(ds.skip(1), acc * 10 + digit_val(ds[0]));
    }
}

proof fn lemma_eval_dec_rep_general(n: nat)
    ensures
        eval_digits(dec_rep(n), 0) == n,
    decreases n,
{
    if n < 10 {
        let d = digit_char(n as int);
        assert(seq![d][0] == d);
        assert(seq![d].skip(1) =~= Seq::<char>::empty());
        assert(eval_digits(Seq::<char>::empty(), n as int) == n);
        assert(eval_digits(seq![d], 0) == eval_digits(seq![d].skip(1), 0 * 10 + digit_val(d)));
    } else {
        lemma_eval_dec_rep_general(n / 10);
        let pre = dec_rep(n / 10);
        let d = digit_char((n % 10) as int);
        assert(dec_rep(n) =~= pre + seq![d]);
        lemma_eval_digits_concat(pre, seq![d], 0);
        assert(digit_val(d) == n % 10);
        let x = (n / 10) * 10 + digit_val(d);
        assert(seq![d].len() == 1);
        assert(seq![d][0] == d);
        assert(seq![d].skip(1) =~= Seq::<char>::empty());
        assert(eval_digits(Seq::<char>::empty(), x) == x);
        assert(eval_digits(seq![d], (n / 10) as int) == eval_digits(seq![d].skip(1), x));
        vstd::arithmetic::div_mod::lemma_fundamental_div_mod(n as int, 10);
    }
}

/// A number on the wire: its decimal rendering terminated by a newline.
pub open spec fn enc_num(n: nat) -> Seq<char> {
    dec_rep(n) + seq!['\n']
}

/// Reads a newline-terminated decimal number starting at position `i`,
/// continuing from the accumulated value `acc`. Fails on a stray character,
/// on an empty digit block, on a missing terminator, and on any value that
/// would not fit in a `u64`.
pub open spec fn parse_num_from(s: Seq<char>, i: int, acc: int, seen: bool) -> Option<(int, int)>
    decreases s.len() - i,
{
    if i < 0 || i >= s.len() {
        None
    } else if s[i] == '\n' {
        if seen {
            Some((acc, i + 1))
        } else {
            None
        }
    } else if digit_val(s[i]) >= 0 {
        if acc * 10 + digit_val(s[i]) > u64::MAX {
            None
        } else {
            parse_num_from(s, i + 1, acc * 10 + digit_val(s[i]), true)
        }
    } else {
        None
    }
}

/// A block of digits followed by a newline parses to its evaluated value.
proof fn lemma_parse_digit_block(s: Seq<char>, i: int, j: int, acc: int, seen: bool)
    requires
        0 <= i <= j < s.len(),
        forall|k: int| i <= k < j ==> digit_val(#[trigger] s[k]) >= 0,
        s[j] == '\n',
        acc >= 0,
        eval_digits(s.subrange(i, j), acc) <= u64::MAX,
        seen || j > i,
    ensures
        parse_num_from(s, i, acc, seen) == Some((eval_digits(s.subrange(i, j), acc), j + 1)),
    decreases j - i,
{
    if i == j {
        assert(s.subrange(i, j) =~= Seq::<char>::empty());
    } else {
        let d = digit_val(s[i]);
        assert(d >= 0);
        assert(s[i] != '\n');
        assert(s.subrange(i, j).skip(1) =~= s.subrange(i + 1, j));
        assert(eval_digits(s.subrange(i, j), acc) == eval_digits(
            s.subrange(i + 1, j),
            acc * 10 + d,
        ));
        assert(forall|k: int|
            0 <= k < s.subrange(i + 1, j).len() ==> digit_val(
                #[trigger] s.subrange(i + 1, j)[k],
            ) >= 0);
        lemma_eval_monotone(s.subrange(i + 1, j), acc * 10 + d);
        lemma_parse_digit_block(s, i + 1, j, acc * 10 + d, true);
    }
}

/// Wherever the wire form of `n` sits in a string, parsing from its start
/// yields `n` and stops right after its newline.
pub proof fn lemma_parse_enc_num(s: Seq<char>, i: int, n: nat)
    requires
        0 <= i,
        i + enc_num(n).len() <= s.len(),
        s.subrange(i, i + enc_num(n).len() as int) == enc_num(n),
        n <= u64::MAX,
    ensures
        parse_num_from(s, i, 0, false) == Some((n as int, i + enc_num(n).len())),
{
    let len = dec_rep(n).len() as int;
    let j = i + len;
    lemma_dec_rep_digits(n);
    assert forall|k: int| i <= k <= j implies s[k] == enc_num(n)[k - i] by {
        assert(s.subrange(i, i + enc_num(n).len() as int)[k - i] == s[k]);
    }
    assert(s[j] == '\n');
    assert forall|k: int| i <= k < j implies digit_val(#[trigger] s[k]) >= 0 by {
        assert(s[k] == enc_num(n)[k - i]);
        assert(enc_num(n)[k - i] == dec_rep(n)[k - i]);
        assert(digit_val(dec_rep(n)[k - i]) >= 0);
    }
    assert(s.subrange(i, j) =~= dec_rep(n)) by {
        assert forall|k: int| 0 <= k < len implies s.subrange(i, j)[k] == dec_rep(n)[k] by {
            assert(s[i + k] == enc_num(n)[k]);
            assert(enc_num(n)[k] == dec_rep(n)[k]);
        }
    }
    lemma_eval_dec_rep_general(n);
    lemma_parse_digit_block(s, i, j, 0, false);
}

fn digit_of(c: char) -> (d: u8)
    ensures
        d < 10 ==> digit_val(c) == d as int,
        d >= 10 ==> digit_val(c) < 0,
{
    match c {
        '0' => 0,
        '1' => 1,
        '2' => 2,
        '3' => 3,
        '4' => 4,
        '5' => 5,
        '6' => 6,
        '7' => 7,
        '8' => 8,
        '9' => 9,
        _ => 255,
    }
}

/// Reads a newline-terminated decimal number, the executable twin of
/// `parse_num_from`.
pub fn parse_num(s: &str, from: usize) -> (r: Option<(u64, usize)>)
    requires
        from as int <= s@.len(),
    ensures
        ({
            let res = parse_num_from(s@, from as int, 0, false);
            match r {
                Some(p) => res == Some((p.0 as int, p.1 as int)) && from <= p.1 && p.1 as int
                    <= s@.len(),
                None => res is None,
            }
        }),
{
    let n = s.unicode_len();
    let mut i = from;
    let mut acc: u64 = 0;
    let mut seen = false;
    loop
        invariant
            from <= i <= n,
            n == s@.len(),
            parse_num_from(s@, from as int, 0, false) == parse_num_from(
                s@,
                i as int,
                acc as int,
                seen,
            ),
        decreases n - i,
    {
        if i == n {
            return None;
        }
        let c = s.get_char(i);
        if c == '\n' {
            if seen {
                return Some((acc, i + 1));
            } else {
                return None;
            }
        }
        let d = digit_of(c);
        if d >= 10 {
            return None;
        }
        let stepped = match acc.checked_mul(10) {
            Some(m) => m.checked_add(d as u64),
            None => None,
        };
        match stepped {
            None => {
                return None;
            },
            Some(next) => {
                acc = next;
                seen = true;
                i = i + 1;
            },
        }
    }
}

/// A text field on the wire: its character count, then its characters.
pub open spec fn enc_str(t: Seq<char>) -> Seq<char> {
    enc_num(t.len()) + t
}

/// A book on the wire: the two numeric fields, then every text field.
pub open spec fn enc_book(b: BookView) -> Seq<char> {
    enc_num(b.id as nat) + enc_num(b.total_pages as nat) + enc_str(b.title) + enc_str(b.author)
        + enc_str(b.published_at) + enc_str(b.description) + enc_str(b.isbn) + enc_str(
        b.created_at,
    ) + enc_str(b.updated_at)
}

/// The books of a page on the wire, one after the other.
pub open spec fn enc_books_rec(bs: Seq<BookView>) -> Seq<char>
    decreases bs.len(),
{
    if bs.len() == 0 {
        Seq::empty()
    } else {
        enc_book(bs[0]) + enc_books_rec(bs.skip(1))
    }
}

/// A page on the wire: the book count, then each book.
pub open spec fn encode_page_spec(bs: Seq<BookView>) -> Seq<char> {
    enc_num(bs.len()) + enc_books_rec(bs)
}

/// Reads a text field starting at `i`.
pub open spec fn parse_str_from(s: Seq<char>, i: int) -> Option<(Seq<char>, int)> {
    match parse_num_from(s, i, 0, false) {
        Some((len, j)) => if j + len <= s.len() {
            Some((s.subrange(j, j + len), j + len))
        } else {
            None
        },
        None => None,
    }
}

/// Reads a numeric field that must fit in a `u32`, starting at `i`.
pub open spec fn parse_u32_from(s: Seq<char>, i: int) -> Option<(u32, int)> {
    match parse_num_from(s, i, 0, false) {
        Some((v, j)) => if v <= u32::MAX {
            Some((v as u32, j))
        } else {
            None
        },
        None => None,
    }
}

/// Reads one book starting at `i`.
pub open spec fn parse_book_from(s: Seq<char>, i: int) -> Option<(BookView, int)> {
    match parse_u32_from(s, i) {
        None => None,
        Some((id, i1)) => match parse_u32_from(s, i1) {
            None => None,
            Some((total_pages, i2)) => match parse_str_from(s, i2) {
                None => None,
                Some((title, i3)) => match parse_str_from(s, i3) {
                    None => None,
                    Some((author, i4)) => match parse_str_from(s, i4) {
                        None => None,
                        Some((published_at, i5)) => match parse_str_from(s, i5) {
                            None => None,
                            Some((description, i6)) => match parse_str_from(s, i6) {
                                None => None,
                                Some((isbn, i7)) => match parse_str_from(s, i7) {
                                    None => None,
                                    Some((created_at, i8)) => match parse_str_from(s, i8) {
                                        None => None,
                                        Some((updated_at, i9)) => Some(
                                            (
                                                BookView {
                                                    id,
                                                    title,
                                                    author,
                                                    published_at,
                                                    description,
                                                    isbn,
                                                    total_pages,
                                                    created_at,
                                                    updated_at,
                                                },
                                                i9,
                                            ),
                                        ),
                                    },
                                },
                            },
                        },
                    },
                },
            },
        },
    }
}

/// Reads `k` books starting at `i`.
pub open spec fn parse_books_from(s: Seq<char>, i: int, k: int) -> Option<(Seq<BookView>, int)>
    decreases k,
{
    if k <= 0 {
        Some((Seq::empty(), i))
    } else {
        match parse_book_from(s, i) {
            None => None,
            Some((b, j)) => match parse_books_from(s, j, k - 1) {
                None => None,
                Some((rest, j2)) => Some((seq![b] + rest, j2)),
            },
        }
    }
}

/// Reads a whole page; the input must be consumed exactly.
pub open spec fn decode_page_spec(s: Seq<char>) -> Option<Seq<BookView>> {
    match parse_num_from(s, 0, 0, false) {
        None => None,
        Some((k, i)) => match parse_books_from(s, i, k) {
            None => None,
            Some((bs, j)) => if j == s.len() {
                Some(bs)
            } else {
                None
            },
        },
    }
}

/// Every field of the book is short enough for its length to ride in a
/// `u64` on the wire. Views of real books always satisfy this.
pub open spec fn book_fits(b: BookView) -> bool {
    &&& b.title.len() <= u64::MAX
    &&& b.author.len() <= u64::MAX
    &&& b.published_at.len() <= u64::MAX
    &&& b.description.len() <= u64::MAX
    &&& b.isbn.len() <= u64::MAX
    &&& b.created_at.len() <= u64::MAX
    &&& b.updated_at.len() <= u64::MAX
}

/// When a concatenation of two blocks sits at `i`, each block sits at its
/// own offset.
proof fn lemma_subrange_split(s: Seq<char>, i: int, a: Seq<char>, b: Seq<char>)
    requires
        0 <= i,
        i + a.len() + b.len() <= s.len(),
        s.subrange(i, i + a.len() + b.len()) == a + b,
    ensures
        s.subrange(i, i + a.len() as int) == a,
        s.subrange(i + a.len() as int, i + a.len() + b.len()) == b,
{
    let whole = s.subrange(i, i + a.len() + b.len());
    assert(s.subrange(i, i + a.len() as int) =~= a) by {
        assert forall|k: int| 0 <= k < a.len() implies s.subrange(i, i + a.len() as int)[k] == a[k]
            by {
            assert(whole[k] == (a + b)[k]);
        }
    }
    assert(s.subrange(i + a.len() as int, i + a.len() + b.len()) =~= b) by {
        assert forall|k: int|
            0 <= k < b.len() implies s.subrange(i + a.len() as int, i + a.len() + b.len())[k]
            == b[k] by {
            assert(whole[a.len() + k] == (a + b)[a.len() + k]);
        }
    }
}

/// Wherever the wire form of a text field sits, parsing from its start
/// yields the field.
proof fn lemma_parse_enc_str(s: Seq<char>, i: int, t: Seq<char>)
    requires
        0 <= i,
        i + enc_str(t).len() <= s.len(),
        s.subrange(i, i + enc_str(t).len() as int) == enc_str(t),
        t.len() <= u64::MAX,
    ensures
        parse_str_from(s, i) == Some((t, i + enc_str(t).len())),
{
    lemma_subrange_split(s, i, enc_num(t.len()), t);
    lemma_parse_enc_num(s, i, t.len());
    let j = i + enc_num(t.len()).len();
    assert(s.subrange(j, j + t.len() as int) == t);
}

/// Wherever the wire form of a `u32` field sits, parsing from its start
/// yields the field.
proof fn lemma_parse_enc_u32(s: Seq<char>, i: int, v: u32)
    requires
        0 <= i,
        i + enc_num(v as nat).len() <= s.len(),
        s.subrange(i, i + enc_num(v as nat).len() as int) == enc_num(v as nat),
    ensures
        parse_u32_from(s, i) == Some((v, i + enc_num(v as nat).len())),
{
    lemma_parse_enc_num(s, i, v as nat);
}

/// Wherever the wire form of a book sits, parsing from its start yields the
/// book.
proof fn lemma_parse_enc_book(s: Seq<char>, i: int, b: BookView)
    requires
        0 <= i,
        i + enc_book(b).len() <= s.len(),
        s.subrange(i, i + enc_book(b).len() as int) == enc_book(b),
        book_fits(b),
    ensures
        parse_book_from(s, i) == Some((b, i + enc_book(b).len())),
{
    let c1 = enc_num(b.id as nat);
    let c2 = enc_num(b.total_pages as nat);
    let c3 = enc_str(b.title);
    let c4 = enc_str(b.author);
    let c5 = enc_str(b.published_at);
    let c6 = enc_str(b.description);
    let c7 = enc_str(b.isbn);
    let c8 = enc_str(b.created_at);
    let c9 = enc_str(b.updated_at);
    assert(enc_book(b) =~= c1 + (c2 + (c3 + (c4 + (c5 + (c6 + (c7 + (c8 + c9))))))));
    let i1 = i + c1.len() as int;
    let i2 = i1 + c2.len() as int;
    let i3 = i2 + c3.len() as int;
    let i4 = i3 + c4.len() as int;
    let i5 = i4 + c5.len() as int;
    let i6 = i5 + c6.len() as int;
    let i7 = i6 + c7.len() as int;
    let i8 = i7 + c8.len() as int;
    let i9 = i8 + c9.len() as int;
    lemma_subrange_split(s, i, c1, c2 + (c3 + (c4 + (c5 + (c6 + (c7 + (c8 + c9)))))));
    lemma_subrange_split(s, i1, c2, c3 + (c4 + (c5 + (c6 + (c7 + (c8 + c9))))));
    lemma_subrange_split(s, i2, c3, c4 + (c5 + (c6 + (c7 + (c8 + c9)))));
    lemma_subrange_split(s, i3, c4, c5 + (c6 + (c7 + (c8 + c9))));
    lemma_subrange_split(s, i4, c5, c6 + (c7 + (c8 + c9)));
    lemma_subrange_split(s, i5, c6, c7 + (c8 + c9));
    lemma_subrange_split(s, i6, c7, c8 + c9);
    lemma_subrange_split(s, i7, c8, c9);
    lemma_parse_enc_u32(s, i, b.id);
    lemma_parse_enc_u32(s, i1, b.total_pages);
    lemma_parse_enc_str(s, i2, b.title);
    lemma_parse_enc_str(s, i3, b.author);
    lemma_parse_enc_str(s, i4, b.published_at);
    lemma_parse_enc_str(s, i5, b.description);
    lemma_parse_enc_str(s, i6, b.isbn);
    lemma_parse_enc_str(s, i7, b.created_at);
    lemma_parse_enc_str(s, i8, b.updated_at);
}

/// Wherever the wire form of a run of books sits, parsing that many books
/// from its start yields exactly those books.
proof fn lemma_parse_enc_books(s: Seq<char>, i: int, bs: Seq<BookView>)
    requires
        0 <= i,
        i + enc_books_rec(bs).len() <= s.len(),
        s.subrange(i, i + enc_books_rec(bs).len() as int) == enc_books_rec(bs),
        forall|k: int| 0 <= k < bs.len() ==> book_fits(#[trigger] bs[k]),
    ensures
        parse_books_from(s, i, bs.len() as int) == Some((bs, i + enc_books_rec(bs).len())),
    decreases bs.len(),
{
    if bs.len() == 0 {
        assert(parse_books_from(s, i, 0) == Some((Seq::<BookView>::empty(), i)));
        assert(bs =~= Seq::<BookView>::empty());
    } else {
        let head = enc_book(bs[0]);
        let tail = enc_books_rec(bs.skip(1));
        lemma_subrange_split(s, i, head, tail);
        assert(book_fits(bs[0]));
        lemma_parse_enc_book(s, i, bs[0]);
        let j = i + head.len() as int;
        assert(forall|k: int|
            0 <= k < bs.skip(1).len() ==> book_fits(#[trigger] bs.skip(1)[k]));
        lemma_parse_enc_books(s, j, bs.skip(1));
        assert(seq![bs[0]] + bs.skip(1) =~= bs);
    }
}

/// Decoding is the exact inverse of encoding: a decoded page is the page
/// that was written.
pub proof fn lemma_decode_encode(bs: Seq<BookView>)
    requires
        bs.len() <= u64::MAX,
        forall|k: int| 0 <= k < bs.len() ==> book_fits(#[trigger] bs[k]),
    ensures
        decode_page_spec(encode_page_spec(bs)) == Some(bs),
{
    let s = encode_page_spec(bs);
    let head = enc_num(bs.len());
    let tail = enc_books_rec(bs);
    assert(s.subrange(0, s.len() as int) =~= s);
    lemma_subrange_split(s, 0, head, tail);
    lemma_parse_enc_num(s, 0, bs.len());
    lemma_parse_enc_books(s, head.len() as int, bs);
}

/// Appends the wire form of a number.
fn push_num(s: &mut String, n: u64)
    ensures
        final(s)@ == old(s)@ + enc_num(n as nat),
{
    push_dec(s, n);
    s.append("\n");
    proof {
        reveal_strlit("\n");
        assert(s@ =~= old(s)@ + enc_num(n as nat));
    }
}

/// Appends the wire form of a text field.
fn push_field(s: &mut String, f: &str)
    ensures
        final(s)@ == old(s)@ + enc_str(f@),
{
    let l = f.unicode_len();
    push_num(s, l as u64);
    s.append(f);
    proof {
        assert(s@ =~= old(s)@ + enc_str(f@));
    }
}

/// Appends the wire form of a book.
fn push_book(s: &mut String, b: &Book)
    ensures
        final(s)@ == old(s)@ + enc_book(b@),
{
    push_num(s, b.id as u64);
    push_num(s, b.total_pages as u64);
    push_field(s, b.title.as_str());
    push_field(s, b.author.as_str());
    push_field(s, b.published_at.as_str());
    push_field(s, b.description.as_str());
    push_field(s, b.isbn.as_str());
    push_field(s, b.created_at.as_str());
    push_field(s, b.updated_at.as_str());
    proof {
        assert(s@ =~= old(s)@ + enc_book(b@));
    }
}

proof fn lemma_enc_books_concat(a: Seq<BookView>, b: Seq<BookView>)
    ensures
        enc_books_rec(a + b) == enc_books_rec(a) + enc_books_rec(b),
    decreases a.len(),
{
    if a.len() == 0 {
        assert(a + b =~= b);
        assert(enc_books_rec(a) + enc_books_rec(b) =~= enc_books_rec(b));
    } else {
        assert((a + b).len() > 0);
        assert((a + b)[0] == a[0]);
        assert((a + b).skip(1) =~= a.skip(1) + b);
        lemma_enc_books_concat(a.skip(1), b);
        assert(enc_book(a[0]) + (enc_books_rec(a.skip(1)) + enc_books_rec(b)) =~= (enc_book(a[0])
            + enc_books_rec(a.skip(1))) + enc_books_rec(b));
    }
}

/// Renders a page of books in the cache-entry wire format.
pub fn encode_page(books: &Vec<Book>) -> (s: String)
    ensures
        s@ == encode_page_spec(crate::model::views_of(books@)),
{
    let ghost vs = crate::model::views_of(books@);
    let mut s = String::new();
    push_num(&mut s, books.len() as u64);
    let mut idx: usize = 0;
    while idx < books.len()
        invariant
            0 <= idx <= books.len(),
            vs == crate::model::views_of(books@),
            vs.len() == books@.len(),
            s@ == enc_num(books@.len()) + enc_books_rec(vs.take(idx as int)),
        decreases books.len() - idx,
    {
        push_book(&mut s, &books[idx]);
        proof {
            assert(vs.take(idx + 1) =~= vs.take(idx as int) + seq![vs[idx as int]]);
            lemma_enc_books_concat(vs.take(idx as int), seq![vs[idx as int]]);
            assert(enc_books_rec(seq![vs[idx as int]]) =~= enc_book(vs[idx as int])) by {
                assert(seq![vs[idx as int]][0] == vs[idx as int]);
                assert(seq![vs[idx as int]].skip(1) =~= Seq::<BookView>::empty());
                assert(enc_books_rec(Seq::<BookView>::empty()) =~= Seq::<char>::empty());
            }
            assert(vs[idx as int] == books@[idx as int]@);
            assert(s@ =~= enc_num(books@.len()) + enc_books_rec(vs.take(idx + 1)));
        }
        idx += 1;
    }
    proof {
        assert(vs.take(books@.len() as int) =~= vs);
    }
    s
}

fn parse_field(s: &str, from: usize) -> (r: Option<(String, usize)>)
    requires
        from as int <= s@.len(),
    ensures
        match r {
            Some(p) => parse_str_from(s@, from as int) == Some((p.0@, p.1 as int)) && from <= p.1
                && p.1 as int <= s@.len(),
            None => parse_str_from(s@, from as int) is None,
        },
{
    let n = s.unicode_len();
    match parse_num(s, from) {
        None => None,
        Some((len, j)) => {
            if len > (n - j) as u64 {
                return None;
            }
            let l = len as usize;
            let sub = s.substring_char(j, j + l);
            Some((String::from_str(sub), j + l))
        },
    }
}

fn parse_u32_field(s: &str, from: usize) -> (r: Option<(u32, usize)>)
    requires
        from as int <= s@.len(),
    ensures
        match r {
            Some(p) => parse_u32_from(s@, from as int) == Some((p.0, p.1 as int)) && from <= p.1
                && p.1 as int <= s@.len(),
            None => parse_u32_from(s@, from as int) is None,
        },
{
    match parse_num(s, from) {
        None => None,
        Some((v, j)) => {
            if v > u32::MAX as u64 {
                return None;
            }
            Some((v as u32, j))
        },
    }
}

fn parse_book(s: &str, from: usize) -> (r: Option<(Book, usize)>)
    requires
        from as int <= s@.len(),
    ensures
        match r {
            Some(p) => parse_book_from(s@, from as int) == Some((p.0@, p.1 as int)) && from <= p.1
                && p.1 as int <= s@.len(),
            None => parse_book_from(s@, from as int) is None,
        },
{
    let (id, i1) = match parse_u32_field(s, from) {
        None => {
            return None;
        },
        Some(p) => p,
    };
    let (total_pages, i2) = match parse_u32_field(s, i1) {
        None => {
            return None;
        },
        Some(p) => p,
    };
    let (title, i3) = match parse_field(s, i2) {
        None => {
            return None;
        },
        Some(p) => p,
    };
    let (author, i4) = match parse_field(s, i3) {
        None => {
            return None;
        },
        Some(p) => p,
    };
    let (published_at, i5) = match parse_field(s, i4) {
        None => {
            return None;
        },
        Some(p) => p,
    };
    let (description, i6) = match parse_field(s, i5) {
        None => {
            return None;
        },
        Some(p) => p,
    };
    let (isbn, i7) = match parse_field(s, i6) {
        None => {
            return None;
        },
        Some(p) => p,
    };
    let (created_at, i8) = match parse_field(s, i7) {
        None => {
            return None;
        },
        Some(p) => p,
    };
    let (updated_at, i9) = match parse_field(s, i8) {
        None => {
            return None;
        },
        Some(p) => p,
    };
    Some(
        (
            Book {
                id,
                title,
                author,
                published_at,
                description,
                isbn,
                total_pages,
                created_at,
                updated_at,
            },
            i9,
        ),
    )
}

/// Reads a page of books back from the cache-entry wire format. Returns
/// nothing when the text is not exactly a page as `encode_page` writes it.
pub fn decode_page(s: &str) -> (r: Option<Vec<Book>>)
    ensures
        match r {
            Some(bs) => decode_page_spec(s@) == Some(crate::model::views_of(bs@)),
            None => decode_page_spec(s@) is None,
        },
{
    let n = s.unicode_len();
    let (k, start) = match parse_num(s, 0) {
        None => {
            return None;
        },
        Some(p) => p,
    };
    let mut out: Vec<Book> = Vec::new();
    let mut cnt: u64 = 0;
    let mut i = start;
    while cnt < k
        invariant
            0 <= cnt <= k,
            i as int <= s@.len(),
            parse_num_from(s@, 0, 0, false) == Some((k as int, start as int)),
            ({
                match parse_books_from(s@, i as int, k as int - cnt as int) {
                    Some(p) => parse_books_from(s@, start as int, k as int) == Some(
                        (crate::model::views_of(out@) + p.0, p.1),
                    ),
                    None => parse_books_from(s@, start as int, k as int) is None,
                }
            }),
        decreases k - cnt,
    {
        let (b, j) = match parse_book(s, i) {
            None => {
                return None;
            },
            Some(p) => p,
        };
        proof {
            let ghost rem = k as int - cnt as int;
            assert(rem > 0);
            let ghost inner = parse_books_from(s@, j as int, rem - 1);
            match inner {
                Some(p) => {
                    assert(parse_books_from(s@, i as int, rem) == Some(
                        (seq![b@] + p.0, p.1),
                    ));
                    assert(crate::model::views_of(out@.push(b)) =~= crate::model::views_of(out@)
                        + seq![b@]);
                    assert((crate::model::views_of(out@) + seq![b@]) + p.0
                        =~= crate::model::views_of(out@.push(b)) + p.0);
                },
                None => {
                    assert(parse_books_from(s@, i as int, rem) is None);
                },
            }
        }
        out.push(b);
        cnt = cnt + 1;
        i = j;
    }
    assert(parse_books_from(s@, i as int, 0) == Some((Seq::<BookView>::empty(), i as int)));
    proof {
        assert(crate::model::views_of(out@) + Seq::<BookView>::empty() =~= crate::model::views_of(
            out@,
        ));
    }
    if i == n {
        Some(out)
    } else {
        None
    }
}

} // verus!
