//! The persisted form of the index: a TOML document holding the entries in
//! order, the run-scoped `checked` marker excluded.

use vstd::prelude::*;

use crate::index::{ExportIndex, ItemView};
use crate::record::BookView;
use crate::strutil::push_char;

verus! {

/// The character for one hexadecimal digit.
pub open spec fn hex_digit(d: nat) -> char {
    if d == 0 {
        '0'
    } else if d == 1 {
        '1'
    } else if d == 2 {
        '2'
    } else if d == 3 {
        '3'
    } else if d == 4 {
        '4'
    } else if d == 5 {
        '5'
    } else if d == 6 {
        '6'
    } else if d == 7 {
        '7'
    } else if d == 8 {
        '8'
    } else if d == 9 {
        '9'
    } else if d == 10 {
        'A'
    } else if d == 11 {
        'B'
    } else if d == 12 {
        'C'
    } else if d == 13 {
        'D'
    } else if d == 14 {
        'E'
    } else {
        'F'
    }
}

/// How one character is written inside a TOML basic string: quote,
/// backslash and the named control characters get a short escape, the
/// remaining control characters a \u escape, everything else stands as
/// itself.
pub open spec fn esc_char(c: char) -> Seq<char> {
    if c == '"' {
        seq!['\\', '"']
    } else if c == '\\' {
        seq!['\\', '\\']
    } else if c == '\n' {
        seq!['\\', 'n']
    } else if c == '\r' {
        seq!['\\', 'r']
    } else if c == '\t' {
        seq!['\\', 't']
    } else if c == '\u{8}' {
        seq!['\\', 'b']
    } else if c == '\u{c}' {
        seq!['\\', 'f']
    } else if (c as u32) < 0x20 || c as u32 == 0x7f {
        seq!['\\', 'u', '0', '0', hex_digit(((c as u32) / 16) as nat), hex_digit(
            ((c as u32) % 16) as nat,
        )]
    } else {
        seq![c]
    }
}

/// A string escaped for a TOML basic string.
pub open spec fn esc_str(s: Seq<char>) -> Seq<char>
    decreases s.len(),
{
    if s.len() == 0 {
        Seq::empty()
    } else {
        esc_str(s.drop_last()) + esc_char(s.last())
    }
}

fn hex_digit_char(d: u32) -> (c: char)
    requires
        d < 16,
    ensures
        c == hex_digit(d as nat),
{
    if d == 0 {
        '0'
    } else if d == 1 {
        '1'
    } else if d == 2 {
        '2'
    } else if d == 3 {
        '3'
    } else if d == 4 {
        '4'
    } else if d == 5 {
        '5'
    } else if d == 6 {
        '6'
    } else if d == 7 {
        '7'
    } else if d == 8 {
        '8'
    } else if d == 9 {
        '9'
    } else if d == 10 {
        'A'
    } else if d == 11 {
        'B'
    } else if d == 12 {
        'C'
    } else if d == 13 {
        'D'
    } else if d == 14 {
        'E'
    } else {
        'F'
    }
}

/// Escapes `s` for use inside a TOML basic string.
pub fn escape_toml(s: &str) -> (r: String)
    ensures
        r@ == esc_str(s@),
{
    let n = s.unicode_len();
    let mut r = String::new();
    let mut i: usize = 0;
    proof {
        assert(s@.take(0) =~= Seq::<char>::empty());
    }
    while i < n
        invariant
            0 <= i <= n,
            n == s@.len(),
            r@ == esc_str(s@.take(i as int)),
        decreases n - i,
    {
        let ghost prev = r@;
        let c = s.get_char(i);
        if c == '"' {
            push_char(&mut r, '\\');
            push_char(&mut r, '"');
        } else if c == '\\' {
            push_char(&mut r, '\\');
            push_char(&mut r, '\\');
        } else if c == '\n' {
            push_char(&mut r, '\\');
            push_char(&mut r, 'n');
        } else if c == '\r' {
            push_char(&mut r, '\\');
            push_char(&mut r, 'r');
        } else if c == '\t' {
            push_char(&mut r, '\\');
            push_char(&mut r, 't');
        } else if c == '\u{8}' {
            push_char(&mut r, '\\');
            push_char(&mut r, 'b');
        } else if c == '\u{c}' {
            push_char(&mut r, '\\');
            push_char(&mut r, 'f');
        } else if (c as u32) < 0x20 || c as u32 == 0x7f {
            push_char(&mut r, '\\');
            push_char(&mut r, 'u');
            push_char(&mut r, '0');
            push_char(&mut r, '0');
            push_char(&mut r, hex_digit_char((c as u32) / 16));
            push_char(&mut r, hex_digit_char((c as u32) % 16));
        } else {
            push_char(&mut r, c);
        }
        proof {
            assert(r@ =~= prev + esc_char(c));
            assert(s@.take(i + 1 as int).drop_last() =~= s@.take(i as int));
            assert(s@.take(i + 1 as int).last() == c);
            assert(r@ =~= esc_str(s@.take(i + 1 as int)));
        }
        i += 1;
    }
    proof {
        assert(s@.take(n as int) =~= s@);
    }
    r
}

/// One quoted TOML value: the escaped string between double quotes.
pub open spec fn quoted(s: Seq<char>) -> Seq<char> {
    "\""@ + esc_str(s) + "\"\n"@
}

/// The TOML lines of one record.
pub open spec fn spec_book_toml(b: BookView) -> Seq<char> {
    "[books.info]\n"@ + "asin = "@ + quoted(b.asin) + "title = "@ + quoted(b.title)
        + (match b.subtitle {
        Some(st) => "subtitle = "@ + quoted(st),
        None => Seq::<char>::empty(),
    }) + "author = "@ + quoted(b.author) + "image_url = "@ + quoted(b.image_url)
        + "last_opened_date = "@ + quoted(b.last_opened_date)
}

/// The TOML block of one index entry: the timestamp, then the record.
/// The `checked` marker is never written.
pub open spec fn spec_item_toml(it: ItemView) -> Seq<char> {
    "[[books]]\n"@ + "last_updated_time = "@ + quoted(it.last_updated_time) + spec_book_toml(
        it.info,
    ) + "\n"@
}

/// The TOML document of the whole index, entries in order.
pub open spec fn spec_index_toml(s: Seq<ItemView>) -> Seq<char>
    decreases s.len(),
{
    if s.len() == 0 {
        Seq::empty()
    } else {
        spec_index_toml(s.drop_last()) + spec_item_toml(s.last())
    }
}

fn append_quoted(r: &mut String, s: &String)
    ensures
        final(r)@ == old(r)@ + quoted(s@),
{
    let ghost prev = r@;
    r.append("\"");
    let e = escape_toml(s.as_str());
    r.append(e.as_str());
    r.append("\"\n");
    proof {
        assert(r@ =~= prev + quoted(s@));
    }
}

/// Renders the TOML block of one index entry.
#[verifier::rlimit(60)]
fn item_toml(it: &crate::index::ExportItem) -> (r: String)
    ensures
        r@ == spec_item_toml(it@),
{
    let mut r = String::new();
    r.append("[[books]]\n");
    r.append("last_updated_time = ");
    append_quoted(&mut r, &it.last_updated_time);
    r.append("[books.info]\n");
    r.append("asin = ");
    append_quoted(&mut r, &it.info.asin);
    r.append("title = ");
    append_quoted(&mut r, &it.info.title);
    match &it.info.subtitle {
        Some(st) => {
            r.append("subtitle = ");
            append_quoted(&mut r, st);
        },
        None => {},
    }
    r.append("author = ");
    append_quoted(&mut r, &it.info.author);
    r.append("image_url = ");
    append_quoted(&mut r, &it.info.image_url);
    r.append("last_opened_date = ");
    append_quoted(&mut r, &it.info.last_opened_date);
    r.append("\n");
    proof {
        assert(r@ =~= spec_item_toml(it@));
    }
    r
}

impl ExportIndex {
    /// Serializes the index in its persisted TOML form: the entries in
    /// index order, each with its timestamp and record, `checked`
    /// excluded.
    pub fn to_toml_string(&self) -> (r: String)
        ensures
            r@ == spec_index_toml(self@),
    {
        let mut r = String::new();
        let n = self.books.len();
        let mut i: usize = 0;
        proof {
            assert(self@.take(0) =~= Seq::<ItemView>::empty());
        }
        while i < n
            invariant
                0 <= i <= n,
                n == self.books@.len(),
                r@ == spec_index_toml(self@.take(i as int)),
            decreases n - i,
        {
            let ghost prev = r@;
            let it = &self.books[i];
            let block = item_toml(it);
            r.append(block.as_str());
            proof {
                assert(r@ =~= prev + spec_item_toml(self@[i as int]));
                assert(self@.take(i + 1 as int).drop_last() =~= self@.take(i as int));
                assert(self@.take(i + 1 as int).last() == self@[i as int]);
                assert(r@ =~= spec_index_toml(self@.take(i + 1 as int)));
            }
            i += 1;
        }
        proof {
            assert(self@.take(n as int) =~= self@);
        }
        r
    }
}

} // verus!
