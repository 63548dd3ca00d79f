//! Top-level entries of a TOML document, as the library reads them.

use vstd::prelude::*;

verus! {

/// A top-level TOML value: text, a boolean, or anything else.
pub enum TomlScalar {
    Text(String),
    Flag(bool),
    Other,
}

/// What a `TomlScalar` holds, as plain values.
pub ghost enum ScalarView {
    Text(Seq<char>),
    Flag(bool),
    Other,
}

impl TomlScalar {
    pub open spec fn view(&self) -> ScalarView {
        match self {
            TomlScalar::Text(s) => ScalarView::Text(s@),
            TomlScalar::Flag(b) => ScalarView::Flag(*b),
            TomlScalar::Other => ScalarView::Other,
        }
    }
}

/// One top-level key of a TOML document and its value.
pub struct TomlEntry {
    pub key: String,
    pub value: TomlScalar,
}

impl TomlEntry {
    pub open spec fn view(&self) -> (Seq<char>, ScalarView) {
        (self.key@, self.value@)
    }
}

pub open spec fn entries_view(es: Seq<TomlEntry>) -> Seq<(Seq<char>, ScalarView)> {
    es.map_values(|e: TomlEntry| e@)
}

/// The top-level entries that `toml` parses a document into, or `None` when
/// the text is not a TOML document.
pub uninterp spec fn toml_entries(content: Seq<char>) -> Option<Seq<(Seq<char>, ScalarView)>>;

/// A character TOML takes in a bare key: an ASCII letter or digit, `-` or `_`.
pub open spec fn bare_key_char(c: char) -> bool {
    ('a' <= c && c <= 'z') || ('A' <= c && c <= 'Z') || ('0' <= c && c <= '9') || c == '-' || c == '_'
}

/// A key written without quotes.
pub open spec fn bare_key(k: Seq<char>) -> bool {
    k.len() > 0 && forall|i: int| 0 <= i < k.len() ==> bare_key_char(#[trigger] k[i])
}

/// A character a TOML basic string holds as it is: a tab, or anything but
/// `"`, `\` and the other control characters.
pub open spec fn plain_char(c: char) -> bool {
    (c == '\t' || ' ' <= c) && c != '"' && c != '\\' && c != '\u{7f}'
}

/// Text that a basic string `"..."` holds with nothing escaped.
pub open spec fn plain_text(s: Seq<char>) -> bool {
    forall|i: int| 0 <= i < s.len() ==> plain_char(#[trigger] s[i])
}

/// One line `key = "text"` or `key = true` / `key = false`.
pub open spec fn entry_line(e: (Seq<char>, ScalarView)) -> Seq<char> {
    match e.1 {
        ScalarView::Text(t) => e.0 + " = \""@ + t + "\"\n"@,
        ScalarView::Flag(b) => e.0 + " = "@ + (if b {
            "true"@
        } else {
            "false"@
        }) + "\n"@,
        ScalarView::Other => Seq::empty(),
    }
}

/// A document made of one line per entry, in order.
pub open spec fn simple_document(es: Seq<(Seq<char>, ScalarView)>) -> Seq<char>
    decreases es.len(),
{
    if es.len() == 0 {
        Seq::empty()
    } else {
        entry_line(es[0]) + simple_document(es.drop_first())
    }
}

/// Entries that such a document can write: bare keys, each once, holding
/// plain text or a boolean.
pub open spec fn simple_entries(es: Seq<(Seq<char>, ScalarView)>) -> bool {
    &&& forall|i: int| 0 <= i < es.len() ==> bare_key(#[trigger] es[i].0)
    &&& forall|i: int| 0 <= i < es.len() ==> match #[trigger] es[i].1 {
        ScalarView::Text(t) => plain_text(t),
        ScalarView::Flag(_) => true,
        ScalarView::Other => false,
    }
    &&& forall|i: int, j: int| 0 <= i < j < es.len() ==> #[trigger] es[i].0 != #[trigger] es[j].0
}

/// `str::parse::<toml::Table>`, with each value of the table reduced to text,
/// boolean or "other". The table is a map, so no key occurs twice. A
/// document of `key = "text"` and `key = true|false` lines, with bare keys
/// each used once and strings that need no escape, parses to a table that
/// holds exactly those values (the table's own order, by key, is not stated).
#[verifier::external_body]
pub(crate) fn parse_toml(content: &str) -> (r: Option<Vec<TomlEntry>>)
    ensures
        match r {
            Some(v) => toml_entries(content@) == Some(entries_view(v@)),
            None => toml_entries(content@) is None,
        },
        r matches Some(v) ==> forall|i: int, j: int|
            0 <= i < j < v@.len() ==> v@[i].key@ != v@[j].key@,
        r is None ==> forall|es: Seq<(Seq<char>, ScalarView)>|
            simple_entries(es) ==> #[trigger] simple_document(es) != content@,
        r matches Some(v) ==> forall|es: Seq<(Seq<char>, ScalarView)>, k: Seq<char>|
            simple_entries(es) && #[trigger] simple_document(es) == content@ ==> #[trigger] lookup(
                entries_view(v@),
                k,
            ) == lookup(es, k),
{
    let table = content.parse::<toml::Table>().ok()?;
    let mut out = Vec::new();
    for (key, value) in table {
        let value = match value {
            toml::Value::String(s) => TomlScalar::Text(s),
            toml::Value::Boolean(b) => TomlScalar::Flag(b),
            _ => TomlScalar::Other,
        };
        out.push(TomlEntry { key, value });
    }
    Some(out)
}

/// The value of the first entry named `key`, if any.
pub open spec fn lookup(es: Seq<(Seq<char>, ScalarView)>, key: Seq<char>) -> Option<ScalarView>
    decreases es.len(),
{
    if es.len() == 0 {
        None
    } else if es[0].0 == key {
        Some(es[0].1)
    } else {
        lookup(es.drop_first(), key)
    }
}

/// The value of the first entry named `key`.
pub fn find_entry<'a>(es: &'a Vec<TomlEntry>, key: &str) -> (r: Option<&'a TomlScalar>)
    ensures
        match r {
            Some(v) => lookup(entries_view(es@), key@) == Some(v@),
            None => lookup(entries_view(es@), key@) is None,
        },
{
    let k = crate::text::chars_of(key);
    let mut i: usize = 0;
    assert(entries_view(es@).skip(0) =~= entries_view(es@));
    while i < es.len()
        invariant
            0 <= i <= es.len(),
            k@ == key@,
            lookup(entries_view(es@), key@) == lookup(entries_view(es@).skip(i as int), key@),
        decreases es.len() - i,
    {
        let ghost rest = entries_view(es@).skip(i as int);
        assert(rest[0] == es@[i as int]@);
        assert(rest.drop_first() =~= entries_view(es@).skip(i + 1));
        let name = crate::text::chars_of(es[i].key.as_str());
        if vec_eq(&name, &k) {
            return Some(&es[i].value);
        }
        i = i + 1;
    }
    None
}

fn vec_eq(a: &Vec<char>, b: &Vec<char>) -> (r: bool)
    ensures
        r == (a@ == b@),
{
    if a.len() != b.len() {
        return false;
    }
    let mut i: usize = 0;
    while i < a.len()
        invariant
            a.len() == b.len(),
            0 <= i <= a.len(),
            forall|j: int| 0 <= j < i ==> a@[j] == b@[j],
        decreases a.len() - i,
    {
        if a[i] != b[i] {
            return false;
        }
        i = i + 1;
    }
    assert(a@ =~= b@);
    true
}

} // verus!
