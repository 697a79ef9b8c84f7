//! Name parsing and manifest rendering for the Notion extraction.
//!
//! A Notion export arrives as "Export-<uuid>.zip"; every file and
//! directory inside carries a 32-digit version tag before its extension.

use vstd::prelude::*;

use crate::strutil::{has_suffix, match_at, push_char, strip_suffix_str};

verus! {

/// What a Notion extraction run needs: the archive, the target, and
/// whether to overwrite or clean up.
pub struct ExportOpts {
    pub source: String,
    pub target: String,
    pub force: bool,
    pub clean: bool,
}

/// Whether `c` is a lower-case hexadecimal digit.
pub open spec fn is_lower_hex(c: char) -> bool {
    (48 <= c as u32 <= 57) || (97 <= c as u32 <= 102)
}

fn is_lower_hex_char(c: char) -> (b: bool)
    ensures
        b == is_lower_hex(c),
{
    let v = c as u32;
    (48 <= v && v <= 57) || (97 <= v && v <= 102)
}

/// Whether `s` has the shape of a hyphenated UUID: five groups of
/// lower-case hex digits of lengths 8, 4, 4, 4 and 12.
pub open spec fn is_uuid(s: Seq<char>) -> bool {
    &&& s.len() == 36
    &&& s[8] == '-'
    &&& s[13] == '-'
    &&& s[18] == '-'
    &&& s[23] == '-'
    &&& forall|i: int|
        (0 <= i < 36 && i != 8 && i != 13 && i != 18 && i != 23) ==> is_lower_hex(#[trigger] s[i])
}

/// The UUID inside a well-formed export archive name
/// "Export-<uuid>.zip", if the name is well-formed.
pub open spec fn spec_export_name_uuid(name: Seq<char>) -> Option<Seq<char>> {
    if name.len() == 47 && name.subrange(0, 7) == "Export-"@ && name.subrange(43, 47) == ".zip"@
        && is_uuid(name.subrange(7, 43)) {
        Some(name.subrange(7, 43))
    } else {
        None
    }
}

/// Validates an export archive name and hands back the UUID it carries.
pub fn parse_export_name(name: &str) -> (r: Option<String>)
    ensures
        match r {
            Some(u) => spec_export_name_uuid(name@) == Some(u@),
            None => spec_export_name_uuid(name@) is None,
        },
{
    proof {
        reveal_strlit("Export-");
        reveal_strlit(".zip");
    }
    let n = name.unicode_len();
    if n != 47 {
        return None;
    }
    if !match_at(name, 0, "Export-") {
        return None;
    }
    if !match_at(name, 43, ".zip") {
        return None;
    }
    let ghost uuid = name@.subrange(7, 43);
    let mut i: usize = 7;
    while i < 43
        invariant
            7 <= i <= 43,
            name@.len() == 47,
            uuid == name@.subrange(7, 43),
            forall|j: int|
                7 <= j < i ==> ((j == 15 || j == 20 || j == 25 || j == 30) ==> name@[j] == '-'),
            forall|j: int|
                7 <= j < i ==> (!(j == 15 || j == 20 || j == 25 || j == 30) ==> is_lower_hex(
                    #[trigger] name@[j],
                )),
        decreases 43 - i,
    {
        let c = name.get_char(i);
        if i == 15 || i == 20 || i == 25 || i == 30 {
            if c != '-' {
                proof {
                    assert(uuid[i - 7] == name@[i as int]);
                    assert(!is_uuid(uuid));
                }
                return None;
            }
        } else {
            if !is_lower_hex_char(c) {
                proof {
                    assert(uuid[i - 7] == name@[i as int]);
                    assert(!is_uuid(uuid));
                }
                return None;
            }
        }
        i += 1;
    }
    proof {
        assert forall|k: int|
            (0 <= k < 36 && k != 8 && k != 13 && k != 18 && k != 23) implies is_lower_hex(
            #[trigger] uuid[k],
        ) by {
            assert(uuid[k] == name@[k + 7]);
        }
        assert(uuid[8] == name@[15]);
        assert(uuid[13] == name@[20]);
        assert(uuid[18] == name@[25]);
        assert(uuid[23] == name@[30]);
        assert(is_uuid(uuid));
    }
    Some(name.substring_char(7, 43).to_owned())
}

/// The sequence with every hyphen removed.
pub open spec fn removed_dashes(s: Seq<char>) -> Seq<char>
    decreases s.len(),
{
    if s.len() == 0 {
        Seq::empty()
    } else {
        removed_dashes(s.drop_last()) + (if s.last() == '-' {
            Seq::<char>::empty()
        } else {
            seq![s.last()]
        })
    }
}

/// Removes every hyphen, as the versioned directory name wants the UUID
/// compacted.
pub fn remove_dashes(s: &str) -> (r: String)
    ensures
        r@ == removed_dashes(s@),
{
    let n = s.unicode_len();
    let mut r = String::new();
    let mut i: usize = 0;
    proof {
        assert(s@.take(0) =~= Seq::<char>::empty());
    }
    while i < n
        invariant
            0 <= i <= n,
            n == s@.len(),
            r@ == removed_dashes(s@.take(i as int)),
        decreases n - i,
    {
        let ghost prev = r@;
        let c = s.get_char(i);
        if c != '-' {
            push_char(&mut r, c);
        }
        proof {
            assert(s@.take(i + 1 as int).drop_last() =~= s@.take(i as int));
            assert(s@.take(i + 1 as int).last() == c);
            assert(r@ =~= removed_dashes(s@.take(i + 1 as int)));
        }
        i += 1;
    }
    proof {
        assert(s@.take(n as int) =~= s@);
    }
    r
}

/// Whether `s` is exactly 32 lower-case hex digits.
pub open spec fn is_hex32(s: Seq<char>) -> bool {
    s.len() == 32 && forall|i: int| 0 <= i < 32 ==> is_lower_hex(#[trigger] s[i])
}

/// A versioned name without extension: "<name> <hex32>".  The version is
/// the last 32 characters, preceded by a space; everything before the
/// space is the name, which may itself contain spaces.
pub open spec fn spec_versioned_plain(name: Seq<char>) -> Option<(Seq<char>, Seq<char>)> {
    if name.len() >= 33 && is_hex32(name.subrange(name.len() - 32, name.len() as int)) && name[
        name.len() - 33] == ' ' {
        Some(
            (
                name.subrange(0, name.len() - 33),
                name.subrange(name.len() - 32, name.len() as int),
            ),
        )
    } else {
        None
    }
}

/// A versioned file or directory name: "<name> <hex32>", optionally
/// followed by ".md" or ".csv".
pub open spec fn spec_versioned_name(name: Seq<char>) -> Option<
    (Seq<char>, Seq<char>, Option<Seq<char>>),
> {
    if has_suffix(name, ".md"@) {
        match spec_versioned_plain(name.subrange(0, name.len() - 3)) {
            Some((n, v)) => Some((n, v, Some("md"@))),
            None => None,
        }
    } else if has_suffix(name, ".csv"@) {
        match spec_versioned_plain(name.subrange(0, name.len() - 4)) {
            Some((n, v)) => Some((n, v, Some("csv"@))),
            None => None,
        }
    } else {
        match spec_versioned_plain(name) {
            Some((n, v)) => Some((n, v, None)),
            None => None,
        }
    }
}

fn parse_versioned_plain(name: &str) -> (r: Option<(String, String)>)
    ensures
        match r {
            Some(p) => spec_versioned_plain(name@) == Some((p.0@, p.1@)),
            None => spec_versioned_plain(name@) is None,
        },
{
    let n = name.unicode_len();
    if n < 33 {
        return None;
    }
    if name.get_char(n - 33) != ' ' {
        return None;
    }
    let ghost ver = name@.subrange(n - 32, n as int);
    let mut i: usize = n - 32;
    while i < n
        invariant
            n - 32 <= i <= n,
            n == name@.len(),
            n >= 33,
            ver == name@.subrange(n - 32, n as int),
            forall|j: int| n - 32 <= j < i ==> is_lower_hex(#[trigger] name@[j]),
        decreases n - i,
    {
        if !is_lower_hex_char(name.get_char(i)) {
            proof {
                assert(ver[i - (n - 32)] == name@[i as int]);
                assert(!is_hex32(ver));
            }
            return None;
        }
        i += 1;
    }
    proof {
        assert forall|k: int| 0 <= k < 32 implies is_lower_hex(#[trigger] ver[k]) by {
            assert(ver[k] == name@[k + n - 32]);
        }
        assert(is_hex32(ver));
    }
    Some((name.substring_char(0, n - 33).to_owned(), name.substring_char(n - 32, n).to_owned()))
}

/// Parses a versioned file or directory name into its name, its version
/// tag, and its extension if it has one.
pub fn parse_versioned_name(name: &str) -> (r: Option<(String, String, Option<String>)>)
    ensures
        match r {
            Some(p) => ({
                let ext = match p.2 {
                    Some(e) => Some(e@),
                    None => None::<Seq<char>>,
                };
                spec_versioned_name(name@) == Some((p.0@, p.1@, ext))
            }),
            None => spec_versioned_name(name@) is None,
        },
{
    proof {
        reveal_strlit(".md");
        reveal_strlit(".csv");
    }
    match strip_suffix_str(name, ".md") {
        Some(core) => match parse_versioned_plain(core.as_str()) {
            Some((nm, v)) => Some((nm, v, Some("md".to_owned()))),
            None => None,
        },
        None => match strip_suffix_str(name, ".csv") {
            Some(core) => match parse_versioned_plain(core.as_str()) {
                Some((nm, v)) => Some((nm, v, Some("csv".to_owned()))),
                None => None,
            },
            None => match parse_versioned_plain(name) {
                Some((nm, v)) => Some((nm, v, None)),
                None => None,
            },
        },
    }
}

/// A file name joined with its extension.
pub fn joined_file_name(name: &str, ext: &str) -> (r: String)
    ensures
        r@ == name@ + "."@ + ext@,
{
    let mut r = name.to_owned();
    r.append(".");
    r.append(ext);
    r
}

/// One line of the version manifest's file list.
pub open spec fn spec_file_line(nm: Seq<char>, v: Seq<char>) -> Seq<char> {
    "- '"@ + nm + "': '"@ + v + "'\n"@
}

/// The file list of the version manifest, in encounter order.
pub open spec fn spec_file_lines(fs: Seq<(String, String)>) -> Seq<char>
    decreases fs.len(),
{
    if fs.len() == 0 {
        Seq::empty()
    } else {
        spec_file_lines(fs.drop_last()) + spec_file_line(fs.last().0@, fs.last().1@)
    }
}

/// The version manifest written into each extracted directory: the
/// directory's version, then — only when the directory holds files — the
/// list of its files with their versions.
pub open spec fn spec_version_file(version: Seq<char>, fs: Seq<(String, String)>) -> Seq<char> {
    "version: "@ + version + "\n"@ + (if fs.len() == 0 {
        Seq::<char>::empty()
    } else {
        "\n"@ + "files:\n"@ + spec_file_lines(fs)
    })
}

/// Renders the version manifest of one extracted directory, given the
/// directory's version and its file children as (name, version) pairs in
/// encounter order.
pub fn render_version_file(version: &str, files: &Vec<(String, String)>) -> (r: String)
    ensures
        r@ == spec_version_file(version@, files@),
{
    let mut r = String::new();
    r.append("version: ");
    r.append(version);
    r.append("\n");
    let ghost head = r@;
    let n = files.len();
    if n == 0 {
        proof {
            assert(r@ =~= spec_version_file(version@, files@));
        }
        return r;
    }
    r.append("\n");
    r.append("files:\n");
    let ghost head2 = r@;
    let mut i: usize = 0;
    proof {
        assert(files@.take(0) =~= Seq::<(String, String)>::empty());
        assert(r@ =~= head2 + spec_file_lines(files@.take(0)));
    }
    while i < n
        invariant
            0 <= i <= n,
            n == files@.len(),
            r@ == head2 + spec_file_lines(files@.take(i as int)),
        decreases n - i,
    {
        let ghost prev = r@;
        let nm = &files[i].0;
        let v = &files[i].1;
        r.append("- '");
        r.append(nm.as_str());
        r.append("': '");
        r.append(v.as_str());
        r.append("'\n");
        proof {
            assert(files@.take(i + 1 as int).drop_last() =~= files@.take(i as int));
            assert(files@.take(i + 1 as int).last() == files@[i as int]);
            assert(r@ =~= head2 + spec_file_lines(files@.take(i + 1 as int)));
        }
        i += 1;
    }
    proof {
        assert(files@.take(n as int) =~= files@);
        assert(r@ =~= spec_version_file(version@, files@));
    }
    r
}

} // verus!
