//! Where the daemon's shared secret lives, and which secret is used: the
//! one from the environment, else the one on disk, else a fresh random one.

use vstd::prelude::*;
use vstd::string::*;
use crate::text::{
    chars_of, has_prefix, in_class, is_blank, is_unicode_whitespace, lemma_trim_by_idempotent,
    lemma_trim_by_removes_only_class, trim, trim_by, trim_end_by, trim_start_by, trim_str, CharClass,
};

verus! {

/// Name of the environment variable that can carry the daemon token.
pub const TOKEN_ENV: &'static str = "AUTOCLI_DAEMON_TOKEN";

/// Name of the file, under the configuration directory, that holds the token.
pub const TOKEN_FILENAME: &'static str = "daemon-token";

/// Name of the configuration directory under the home directory.
pub const CONFIG_DIR: &'static str = ".autocli";

// ---------------------------------------------------------------------
// Paths
// ---------------------------------------------------------------------

/// The path rules of the platform: Unix, or Windows.
#[derive(Debug, Clone, Copy, PartialEq, Eq, Structural)]
pub enum PathStyle {
    /// `/` separates components.
    Unix,
    /// `\` separates components and `/` is accepted as one too; paths may
    /// begin with a prefix such as a drive `C:`.
    Windows,
}

/// Whether `c` separates path components.
pub open spec fn is_separator(c: char, style: PathStyle) -> bool {
    c == '/' || (style == PathStyle::Windows && c == '\\')
}

/// The separator that joining inserts.
pub open spec fn main_separator(style: PathStyle) -> char {
    match style {
        PathStyle::Unix => '/',
        PathStyle::Windows => '\\',
    }
}

/// Whether `base` is nothing but a drive prefix such as `C:` (Windows).
pub open spec fn is_drive_only(base: Seq<char>, style: PathStyle) -> bool {
    &&& style == PathStyle::Windows
    &&& base.len() == 2
    &&& base[1] == ':'
    &&& ('A' as u32 <= base[0] as u32 <= 'Z' as u32 || 'a' as u32 <= base[0] as u32 <= 'z' as u32)
}

/// Whether `base` begins with the verbatim prefix `\\?\` (Windows), after
/// which std rebuilds the whole path from its components when joining.
pub open spec fn is_verbatim(base: Seq<char>, style: PathStyle) -> bool {
    style == PathStyle::Windows && has_prefix(base, seq!['\\', '\\', '?', '\\'])
}

/// Whether `part` is a relative component without root or prefix on either
/// platform: not empty, not beginning with `/` or `\`, and without `:`.
pub open spec fn is_plain_component(part: Seq<char>) -> bool {
    &&& part.len() > 0
    &&& part[0] != '/'
    &&& part[0] != '\\'
    &&& forall|i: int| 0 <= i < part.len() ==> #[trigger] part[i] != ':'
}

/// `base` extended by the plain component `part` as `PathBuf::push` does:
/// a separator goes between them unless `base` is empty, ends with a
/// separator, or (on Windows) is a bare drive prefix.
pub open spec fn path_join(base: Seq<char>, part: Seq<char>, style: PathStyle) -> Seq<char> {
    if base.len() == 0 || is_separator(base.last(), style) || is_drive_only(base, style) {
        base + part
    } else {
        base + seq![main_separator(style)] + part
    }
}

fn is_separator_char(c: char, style: PathStyle) -> (b: bool)
    ensures
        b == is_separator(c, style),
{
    c == '/' || (style == PathStyle::Windows && c == '\\')
}

/// `base` extended by the plain component `part` (see `path_join`).
fn join_component(base: &str, part: &str, style: PathStyle) -> (r: String)
    requires
        is_plain_component(part@),
        !is_verbatim(base@, style),
    ensures
        r@ == path_join(base@, part@, style),
{
    let b = chars_of(base);
    let drive_only = style == PathStyle::Windows && b.len() == 2 && b[1] == ':' && (('A' as u32
        <= b[0] as u32 && b[0] as u32 <= 'Z' as u32) || ('a' as u32 <= b[0] as u32 && b[0] as u32
        <= 'z' as u32));
    let mut r = String::from_str(base);
    if !(b.len() == 0 || is_separator_char(b[b.len() - 1], style) || drive_only) {
        let sep = match style {
            PathStyle::Unix => '/',
            PathStyle::Windows => '\\',
        };
        crate::text::push_char(&mut r, sep);
    }
    r.append(part);
    r
}

/// Whether `base` begins with the verbatim prefix (see `is_verbatim`).
fn is_verbatim_path(base: &str, style: PathStyle) -> (b: bool)
    ensures
        b == is_verbatim(base@, style),
{
    let v = chars_of(base);
    let b = style == PathStyle::Windows && v.len() >= 4 && v[0] == '\\' && v[1] == '\\' && v[2]
        == '?' && v[3] == '\\';
    assert(b == is_verbatim(base@, style)) by {
        if v.len() >= 4 {
            if b {
                assert(v@.take(4) =~= seq!['\\', '\\', '?', '\\']);
            } else if has_prefix(base@, seq!['\\', '\\', '?', '\\']) {
                assert(v@.take(4)[0] == v@[0]);
                assert(v@.take(4)[1] == v@[1]);
                assert(v@.take(4)[2] == v@[2]);
                assert(v@.take(4)[3] == v@[3]);
            }
        }
    }
    b
}

/// The file `file` in the directory `dir` under the home directory `home`,
/// as `PathBuf::from(home).join(dir).join(file)` gives it; `None` where
/// `home`, or `home` joined with `dir`, is a verbatim Windows path (see
/// `is_verbatim`), which std rebuilds from its components.
pub open spec fn home_file_of(home: Seq<char>, dir: Seq<char>, file: Seq<char>, style: PathStyle) -> Option<
    Seq<char>,
> {
    let d = path_join(home, dir, style);
    if is_verbatim(home, style) || is_verbatim(d, style) {
        None
    } else {
        Some(path_join(d, file, style))
    }
}

/// The file `file` in the directory `dir` under `home` (see `home_file_of`).
pub fn home_file_path(home: &str, dir: &str, file: &str, style: PathStyle) -> (r: Option<String>)
    requires
        is_plain_component(dir@),
        is_plain_component(file@),
    ensures
        r matches Some(p) ==> home_file_of(home@, dir@, file@, style) == Some(p@),
        r is None ==> home_file_of(home@, dir@, file@, style) is None,
{
    if is_verbatim_path(home, style) {
        return None;
    }
    let d = join_component(home, dir, style);
    if is_verbatim_path(d.as_str(), style) {
        return None;
    }
    Some(join_component(d.as_str(), file, style))
}

/// Law: on Unix the file sits under `<home>/<dir>/`: for a home directory
/// that is not empty, `home/dir/file` with one `/` between the parts (none
/// added after a home that already ends with `/`), for a `dir` that does
/// not end with `/`.
pub proof fn lemma_home_file_unix(home: Seq<char>, dir: Seq<char>, file: Seq<char>)
    requires
        home.len() > 0,
        is_plain_component(dir),
        is_plain_component(file),
        dir.last() != '/',
    ensures
        home.last() != '/' ==> home_file_of(home, dir, file, PathStyle::Unix) == Some(
            home + seq!['/'] + dir + seq!['/'] + file,
        ),
        home.last() == '/' ==> home_file_of(home, dir, file, PathStyle::Unix) == Some(
            home + dir + seq!['/'] + file,
        ),
{
    let d = path_join(home, dir, PathStyle::Unix);
    assert(d.last() == dir.last());
    assert(!is_verbatim(home, PathStyle::Unix));
    assert(!is_verbatim(d, PathStyle::Unix));
}

/// The home directory: `HOME` where it is set, else `USERPROFILE`, else the
/// current directory `.`.
pub open spec fn home_dir_of(home: Option<Seq<char>>, userprofile: Option<Seq<char>>) -> Seq<
    char,
> {
    match home {
        Some(h) => h,
        None => match userprofile {
            Some(u) => u,
            None => "."@,
        },
    }
}

/// The home directory, from the values of `HOME` and `USERPROFILE` (each
/// `None` where unset or not Unicode).
pub fn home_dir(home: Option<&str>, userprofile: Option<&str>) -> (r: String)
    ensures
        r@ == home_dir_of(
            match home {
                Some(h) => Some(h@),
                None => None,
            },
            match userprofile {
                Some(u) => Some(u@),
                None => None,
            },
        ),
{
    match home {
        Some(h) => String::from_str(h),
        None => match userprofile {
            Some(u) => String::from_str(u),
            None => String::from_str("."),
        },
    }
}

/// The path of the daemon token file under the home directory `home`:
/// `<home>/.autocli/daemon-token` with the platform's separators.
pub fn daemon_token_path(home: &str, style: PathStyle) -> (r: Option<String>)
    ensures
        r matches Some(p) ==> home_file_of(home@, CONFIG_DIR@, TOKEN_FILENAME@, style) == Some(p@),
        r is None ==> home_file_of(home@, CONFIG_DIR@, TOKEN_FILENAME@, style) is None,
{
    proof {
        reveal_strlit(".autocli");
        reveal_strlit("daemon-token");
    }
    home_file_path(home, CONFIG_DIR, TOKEN_FILENAME, style)
}

// ---------------------------------------------------------------------
// The token
// ---------------------------------------------------------------------

/// A token as read from the environment or a file: the text without
/// surrounding whitespace, or nothing when that is empty.
pub open spec fn normalized_token(raw: Seq<char>) -> Option<Seq<char>> {
    if trim(raw).len() == 0 {
        None
    } else {
        Some(trim(raw))
    }
}

/// The token in `raw`, without surrounding whitespace; `None` when `raw` is
/// blank.
pub fn normalize_token(raw: &str) -> (r: Option<String>)
    ensures
        match r {
            Some(t) => normalized_token(raw@) == Some(t@),
            None => normalized_token(raw@) is None,
        },
{
    if is_blank(raw) {
        None
    } else {
        Some(trim_str(raw))
    }
}

/// Law: a normalized token normalizes to itself.
pub proof fn lemma_normalize_token_idempotent(raw: Seq<char>)
    requires
        normalized_token(raw) is Some,
    ensures
        normalized_token(normalized_token(raw)->0) == normalized_token(raw),
{
    lemma_trim_by_idempotent(raw, CharClass::Whitespace);
}

/// Law: a token is read from its text by cutting whitespace off the ends
/// and nothing else: the text is some whitespace, the token, and some
/// whitespace, and the token neither begins nor ends with whitespace.
pub proof fn lemma_normalize_token_cuts_only_whitespace(raw: Seq<char>)
    ensures
        normalized_token(raw) matches Some(t) ==> t.len() > 0 && exists|i: int|
            #![trigger raw.take(i)]
            0 <= i && i + t.len() <= raw.len() && raw.subrange(i, i + t.len()) == t && (forall|
                x: int,
            | 0 <= x < i ==> #[trigger] is_unicode_whitespace(raw[x])) && (forall|x: int|
                i + t.len() <= x < raw.len() ==> #[trigger] is_unicode_whitespace(raw[x]))
                && !is_unicode_whitespace(t[0]) && !is_unicode_whitespace(t.last()),
        normalized_token(raw) is None ==> forall|x: int|
            0 <= x < raw.len() ==> #[trigger] is_unicode_whitespace(raw[x]),
{
    lemma_trim_by_removes_only_class(raw, CharClass::Whitespace);
    let (i, j): (int, int) = choose|i: int, j: int|
        #![trigger raw.subrange(i, j)]
        0 <= i <= j <= raw.len() && trim_by(raw, CharClass::Whitespace) == raw.subrange(i, j) && (
        forall|x: int| 0 <= x < i ==> #[trigger] in_class(raw[x], CharClass::Whitespace)) && (
        forall|x: int| j <= x < raw.len() ==> #[trigger] in_class(raw[x], CharClass::Whitespace));
    let t = trim(raw);
    assert(t == raw.subrange(i, j));
    assert forall|x: int| 0 <= x < i implies #[trigger] is_unicode_whitespace(raw[x]) by {
        assert(in_class(raw[x], CharClass::Whitespace));
    }
    assert forall|x: int| j <= x < raw.len() implies #[trigger] is_unicode_whitespace(raw[x]) by {
        assert(in_class(raw[x], CharClass::Whitespace));
    }
    if t.len() == 0 {
        assert forall|x: int| 0 <= x < raw.len() implies #[trigger] is_unicode_whitespace(raw[x]) by {
            assert(in_class(raw[x], CharClass::Whitespace));
        }
    } else {
        // Mentions the witness for the existential.
        assert(raw.take(i) == raw.take(i));
        assert(!in_class(t[0], CharClass::Whitespace));
        assert(!in_class(t.last(), CharClass::Whitespace));
    }
}

/// Whether `c` is a lowercase hexadecimal digit.
pub open spec fn is_lower_hex(c: char) -> bool {
    ('0' as u32 <= c as u32 <= '9' as u32) || ('a' as u32 <= c as u32 <= 'f' as u32)
}

/// Whether `s` is a random (version 4) UUID in the simple format: 32
/// lowercase hexadecimal digits, the version digit `4` at index 12 and a
/// variant digit `8`, `9`, `a` or `b` at index 16.
pub open spec fn is_simple_v4_uuid(s: Seq<char>) -> bool {
    &&& s.len() == 32
    &&& forall|i: int| 0 <= i < 32 ==> is_lower_hex(#[trigger] s[i])
    &&& s[12] == '4'
    &&& (s[16] == '8' || s[16] == '9' || s[16] == 'a' || s[16] == 'b')
}

/// A fresh random token: `uuid::Uuid::new_v4().simple().to_string()`.
/// The uuid crate sets the version nibble to 4 and the two variant bits to
/// `10`, and writes the simple format as 32 lowercase hexadecimal digits;
/// which digits come out is left to the random source.
#[verifier::external_body]
fn new_random_token() -> (r: String)
    ensures
        is_simple_v4_uuid(r@),
{
    uuid::Uuid::new_v4().simple().to_string()
}

/// The token to use, from the value of `AUTOCLI_DAEMON_TOKEN` (if set) and
/// the content of the token file (if it exists and was read). Returns the
/// token and whether it is new and must be written to the token file: the
/// environment's token when it is not blank, else the file's when it is not
/// blank, else a fresh random one.
pub fn load_or_create_daemon_token(env_token: Option<&str>, file_content: Option<&str>) -> (r: (
    String,
    bool,
))
    ensures
        match env_token {
            Some(e) if normalized_token(e@) is Some => r.0@ == normalized_token(e@)->0 && !r.1,
            _ => match file_content {
                Some(f) if normalized_token(f@) is Some => r.0@ == normalized_token(f@)->0 && !r.1,
                _ => is_simple_v4_uuid(r.0@) && r.1,
            },
        },
{
    if let Some(e) = env_token {
        if let Some(t) = normalize_token(e) {
            return (t, false);
        }
    }
    if let Some(f) = file_content {
        if let Some(t) = normalize_token(f) {
            return (t, false);
        }
    }
    (new_random_token(), true)
}


/// What the token file holds after a token was stored: the token and a
/// line end.
pub open spec fn token_file_text(token: Seq<char>) -> Seq<char> {
    token.push('\n')
}

/// The text to write to the token file for `token`.
pub fn token_file_content(token: &str) -> (r: String)
    ensures
        r@ == token_file_text(token@),
{
    let mut r = String::from_str(token);
    crate::text::push_char(&mut r, '\n');
    r
}

/// Law: a freshly created token, once written to the token file, is read
/// back from it unchanged.
pub proof fn lemma_stored_token_reads_back(token: Seq<char>)
    requires
        is_simple_v4_uuid(token),
    ensures
        normalized_token(token_file_text(token)) == Some(token),
{
    let s = token.push('\n');
    assert(is_lower_hex(token[0]));
    assert(is_lower_hex(token[31]));
    assert(trim_start_by(s, CharClass::Whitespace) == s);
    assert(s.drop_last() =~= token);
    assert(trim_end_by(token, CharClass::Whitespace) == token);
    assert(trim_end_by(s, CharClass::Whitespace) == token);
}

} // verus!
