//! What the website works out before it renders a page: the source that a
//! pad link carries, the page that a blog link names, and the style classes
//! of names in code.

use base64::engine::general_purpose::URL_SAFE;
use base64::Engine;
use vstd::prelude::*;
use vstd::string::StringExecFns;

verus! {

/// `base64::DecodeError`, which says why a text is no base64. Nothing is
/// known of what it holds.
#[verifier::external_type_specification]
#[verifier::external_body]
pub struct ExDecodeError(base64::DecodeError);

/// std's `FromUtf8Error`, which says why bytes are no UTF-8. Nothing is
/// known of what it holds.
#[verifier::external_type_specification]
#[verifier::external_body]
pub struct ExFromUtf8Error(std::string::FromUtf8Error);

/// The bytes that `text` stands for in URL-safe base64 with padding, where
/// it is such an encoding.
pub uninterp spec fn url_safe_decoded(text: Seq<char>) -> Option<Seq<u8>>;

/// The text that `bytes` make when every sequence that is not UTF-8 is
/// replaced by the replacement character.
pub uninterp spec fn lossy_utf8(bytes: Seq<u8>) -> Seq<char>;

/// The text that `text` stands for when its percent escapes are resolved,
/// where the outcome is UTF-8.
pub uninterp spec fn percent_decoded(text: Seq<char>) -> Option<Seq<char>>;

/// `base64`'s `Engine::decode` with the `URL_SAFE` engine, on the bytes of
/// `text`. Trusted: the outcome is a function of the text alone, named
/// [`url_safe_decoded`]; an error means that the text is no such encoding.
#[verifier::external_body]
fn decode_url_safe(text: &str) -> (r: Result<Vec<u8>, base64::DecodeError>)
    ensures
        match r {
            Ok(bytes) => url_safe_decoded(text@) == Some(bytes@),
            Err(_) => url_safe_decoded(text@) is None,
        },
{
    URL_SAFE.decode(text)
}

/// std's `String::from_utf8_lossy`. Trusted: the outcome is a function of
/// the bytes alone, named [`lossy_utf8`], and bytes that are UTF-8 give the
/// text that they encode.
#[verifier::external_body]
fn from_utf8_lossy(bytes: &[u8]) -> (r: String)
    ensures
        r@ == lossy_utf8(bytes@),
        vstd::utf8::valid_utf8(bytes@) ==> r@ == vstd::utf8::decode_utf8(bytes@),
{
    String::from_utf8_lossy(bytes).into_owned()
}

/// `urlencoding::decode`. Trusted: the outcome is a function of the text
/// alone, named [`percent_decoded`]; an error means that the resolved bytes
/// are not UTF-8.
#[verifier::external_body]
fn decode_percent(text: &str) -> (r: Result<String, std::string::FromUtf8Error>)
    ensures
        match r {
            Ok(decoded) => percent_decoded(text@) == Some(decoded@),
            Err(_) => percent_decoded(text@) is None,
        },
{
    match urlencoding::decode(text) {
        Ok(decoded) => Ok(decoded.into_owned()),
        Err(e) => Err(e),
    }
}

/// Whether `part` stands in `text` at position `i`.
pub open spec fn occurs_at(text: Seq<char>, part: Seq<char>, i: int) -> bool {
    0 <= i && i + part.len() <= text.len() && text.subrange(i, i + part.len()) == part
}

/// Whether position `i` is the first at which `part` stands in `text`.
pub open spec fn first_at(text: Seq<char>, part: Seq<char>, i: int) -> bool {
    occurs_at(text, part, i) && forall|j: int| 0 <= j < i ==> !occurs_at(text, part, j)
}

/// What stands before and behind the first `delimiter` in `text`, if there
/// is one.
pub open spec fn split_at_first(text: Seq<char>, delimiter: Seq<char>) -> Option<
    (Seq<char>, Seq<char>),
> {
    if exists|i: int| first_at(text, delimiter, i) {
        let i = choose|i: int| first_at(text, delimiter, i);
        Some((text.subrange(0, i), text.subrange(i + delimiter.len(), text.len() as int)))
    } else {
        None
    }
}

/// std's `str::split_once` with a string as the delimiter. Trusted: it
/// splits at the first place where the delimiter stands.
#[verifier::external_body]
fn split_once<'a>(text: &'a str, delimiter: &str) -> (r: Option<(&'a str, &'a str)>)
    ensures
        match r {
            Some((before, behind)) => split_at_first(text@, delimiter@) == Some(
                (before@, behind@),
            ),
            None => split_at_first(text@, delimiter@) is None,
        },
{
    text.split_once(delimiter)
}

/// std's `str::eq`. Trusted: two texts are equal when their characters are.
#[verifier::external_body]
fn same_text(a: &str, b: &str) -> (r: bool)
    ensures
        r == (a@ == b@),
{
    a == b
}

/// How often `c` stands in `text`.
pub open spec fn count_of(text: Seq<char>, c: char) -> nat
    decreases text.len(),
{
    if text.len() == 0 {
        0
    } else {
        count_of(text.drop_last(), c) + if text.last() == c {
            1nat
        } else {
            0nat
        }
    }
}

/// How often `c` stands in `text`.
pub fn count_char(text: &str, c: char) -> (n: usize)
    ensures
        n == count_of(text@, c),
{
    let len = text.unicode_len();
    let mut n: usize = 0;
    let mut i: usize = 0;
    while i < len
        invariant
            len == text@.len(),
            i <= len,
            n <= i,
            n == count_of(text@.take(i as int), c),
        decreases len - i,
    {
        let ghost before = text@.take(i as int);
        if text.get_char(i) == c {
            n += 1;
        }
        i += 1;
        assert(text@.take(i as int).drop_last() =~= before);
    }
    assert(text@.take(len as int) =~= text@);
    n
}

/// The payload of a pad link that names a version: what stands behind the
/// first `__`, where exactly two single underscores stand before it.
pub open spec fn versioned_payload_of(src: Seq<char>) -> Option<Seq<char>> {
    match split_at_first(src, "__"@) {
        Some((version, payload)) => if count_of(version, '_') == 2 {
            Some(payload)
        } else {
            None
        },
        None => None,
    }
}

/// The payload of a pad link that names a version, as in `0_2_1__<payload>`:
/// what stands behind the first `__`, where exactly two underscores stand
/// before it.
pub fn versioned_payload(src: &str) -> (r: Option<&str>)
    ensures
        match r {
            Some(payload) => versioned_payload_of(src@) == Some(payload@),
            None => versioned_payload_of(src@) is None,
        },
{
    match split_once(src, "__") {
        Some((version, payload)) => {
            if count_char(version, '_') == 2 {
                Some(payload)
            } else {
                None
            }
        },
        None => None,
    }
}

/// The source that a pad shows: the decoded text where there is one, else
/// the decoded payload where there is one, else `src` as it stands.
pub fn decoded_or_plain(src: String, whole: Option<String>, payload: Option<String>) -> (r:
    String)
    ensures
        r@ == match whole {
            Some(text) => text@,
            None => match payload {
                Some(text) => text@,
                None => src@,
            },
        },
{
    match whole {
        Some(text) => text,
        None => match payload {
            Some(text) => text,
            None => src,
        },
    }
}

/// The text that `text` encodes in URL-safe base64, read as UTF-8 with
/// replacement characters, where it is such an encoding.
pub open spec fn decoded_text(text: Seq<char>) -> Option<Seq<char>> {
    match url_safe_decoded(text) {
        Some(bytes) => Some(lossy_utf8(bytes)),
        None => None,
    }
}

/// The text that `text` encodes in URL-safe base64, read as UTF-8 with
/// replacement characters, where it is such an encoding.
pub fn decode_text(text: &str) -> (r: Option<String>)
    ensures
        match r {
            Some(decoded) => decoded_text(text@) == Some(decoded@),
            None => decoded_text(text@) is None,
        },
{
    match decode_url_safe(text) {
        Ok(bytes) => Some(from_utf8_lossy(bytes.as_slice())),
        Err(_) => None,
    }
}

/// The source that a pad link carries in its `src` parameter.
pub open spec fn pad_source_of(src: Seq<char>) -> Seq<char> {
    match decoded_text(src) {
        Some(text) => text,
        None => match versioned_payload_of(src) {
            Some(payload) => match decoded_text(payload) {
                Some(text) => text,
                None => src,
            },
            None => src,
        },
    }
}

/// The source that a pad link carries in its `src` parameter: the
/// parameter decoded from URL-safe base64; else, where the parameter names a
/// version, its payload decoded so; else the parameter as it stands.
pub fn pad_source(src: String) -> (r: String)
    ensures
        r@ == pad_source_of(src@),
{
    let whole = decode_text(src.as_str());
    let payload = if whole.is_none() {
        match versioned_payload(src.as_str()) {
            Some(payload) => decode_text(payload),
            None => None,
        }
    } else {
        None
    };
    decoded_or_plain(src, whole, payload)
}

/// The page that a blog link names.
pub open spec fn page_name_of(value: Option<Seq<char>>) -> Seq<char> {
    let text = match value {
        Some(text) => text,
        None => Seq::empty(),
    };
    match percent_decoded(text) {
        Some(decoded) => decoded,
        None => text,
    }
}

/// The name with its percent escapes resolved, or `text` itself where
/// they do not resolve.
pub fn resolved_or_plain(text: &str, resolved: Option<String>) -> (r: String)
    ensures
        r@ == match resolved {
            Some(decoded) => decoded@,
            None => text@,
        },
{
    match resolved {
        Some(decoded) => decoded,
        None => text.to_owned(),
    }
}

/// The page that a blog link names: the parameter with its percent escapes
/// resolved, or as it stands where they do not resolve to UTF-8; the empty
/// name where there is no parameter.
pub fn page_name(value: Option<&str>) -> (r: String)
    ensures
        r@ == page_name_of(
            match value {
                Some(text) => Some(text@),
                None => None,
            },
        ),
{
    let text = match value {
        Some(text) => text,
        None => "",
    };
    proof {
        reveal_strlit("");
        assert(""@ =~= Seq::<char>::empty());
    }
    let resolved = match decode_percent(text) {
        Ok(decoded) => Some(decoded),
        Err(_) => None,
    };
    resolved_or_plain(text, resolved)
}

/// One line of the list of blog pages, taken apart.
#[derive(Debug, PartialEq, Eq)]
pub struct BlogEntry {
    pub path: String,
    pub date: String,
    pub name: String,
}

/// What stands before and behind the first `delimiter` in `text`, or two
/// empty texts where there is none.
pub open spec fn halves(text: Seq<char>, delimiter: Seq<char>) -> (Seq<char>, Seq<char>) {
    match split_at_first(text, delimiter) {
        Some(parts) => parts,
        None => (Seq::empty(), Seq::empty()),
    }
}

/// What stands before and behind the first `delimiter` in `text`, or two
/// empty texts where there is none.
pub fn split_or_empty<'a>(text: &'a str, delimiter: &str) -> (r: (&'a str, &'a str))
    ensures
        (r.0@, r.1@) == halves(text@, delimiter@),
{
    proof {
        reveal_strlit("");
        assert(""@ =~= Seq::<char>::empty());
    }
    match split_once(text, delimiter) {
        Some(parts) => parts,
        None => ("", ""),
    }
}

/// Takes a line `<path>: <date> - <name>` of the list of blog pages apart.
/// What is missing comes out empty.
pub fn blog_entry(line: &str) -> (r: BlogEntry)
    ensures
        r.path@ == halves(line@, ": "@).0,
        r.date@ == halves(halves(line@, ": "@).1, " - "@).0,
        r.name@ == halves(halves(line@, ": "@).1, " - "@).1,
{
    let (path, rest) = split_or_empty(line, ": ");
    let (date, name) = split_or_empty(rest, " - ");
    BlogEntry { path: path.to_owned(), date: date.to_owned(), name: name.to_owned() }
}

/// How many values a function takes and gives.
#[derive(Clone, Copy, Debug, PartialEq, Eq, Structural)]
pub struct Signature {
    pub args: usize,
    pub outputs: usize,
}

/// The style classes of a bound name in code.
pub open spec fn binding_class_of(
    name: Seq<char>,
    sig: Signature,
    margs: usize,
    constant: bool,
) -> Seq<char> {
    if name == "Trans"@ {
        "code-font trans text-gradient"@
    } else if name == "Bi"@ {
        "code-font bi text-gradient"@
    } else if name == "Pan"@ {
        "code-font pan text-gradient"@
    } else if name == "Gay"@ {
        "code-font gay text-gradient"@
    } else if name == "Ace"@ {
        "code-font ace text-gradient"@
    } else if name == "Nb"@ || name == "Enby"@ {
        "code-font nb text-gradient"@
    } else if name == "Fluid"@ {
        "code-font fluid text-gradient"@
    } else if name == "Queer"@ {
        "code-font queer text-gradient"@
    } else if constant {
        "code-font "@
    } else if margs == 0 {
        if sig.args == 0 && sig.outputs == 1 {
            "code-font noadic-function"@
        } else if sig.args == 1 && sig.outputs == 1 {
            "code-font monadic-function"@
        } else if sig.args == 2 && sig.outputs == 1 {
            "code-font dyadic-function"@
        } else if sig.args == 3 {
            "code-font triadic-function"@
        } else if sig.args == 4 {
            "code-font tetradic-function"@
        } else if sig.args == 5 {
            "code-font pentadic-function"@
        } else {
            "code-font "@
        }
    } else if margs == 1 {
        "code-font monadic-modifier"@
    } else if margs == 2 {
        "code-font dyadic-modifier"@
    } else {
        "code-font triadic-modifier"@
    }
}

/// The style classes of a bound name in code: a few names have colours of
/// their own, a constant has none, a function goes by the number of its
/// arguments and a modifier by the number of functions it takes.
pub fn binding_class(name: &str, sig: Signature, margs: usize, constant: bool) -> (r:
    &'static str)
    ensures
        r@ == binding_class_of(name@, sig, margs, constant),
{
    if same_text(name, "Trans") {
        "code-font trans text-gradient"
    } else if same_text(name, "Bi") {
        "code-font bi text-gradient"
    } else if same_text(name, "Pan") {
        "code-font pan text-gradient"
    } else if same_text(name, "Gay") {
        "code-font gay text-gradient"
    } else if same_text(name, "Ace") {
        "code-font ace text-gradient"
    } else if same_text(name, "Nb") || same_text(name, "Enby") {
        "code-font nb text-gradient"
    } else if same_text(name, "Fluid") {
        "code-font fluid text-gradient"
    } else if same_text(name, "Queer") {
        "code-font queer text-gradient"
    } else if constant {
        "code-font "
    } else if margs == 0 {
        if sig.args == 0 && sig.outputs == 1 {
            "code-font noadic-function"
        } else if sig.args == 1 && sig.outputs == 1 {
            "code-font monadic-function"
        } else if sig.args == 2 && sig.outputs == 1 {
            "code-font dyadic-function"
        } else if sig.args == 3 {
            "code-font triadic-function"
        } else if sig.args == 4 {
            "code-font tetradic-function"
        } else if sig.args == 5 {
            "code-font pentadic-function"
        } else {
            "code-font "
        }
    } else if margs == 1 {
        "code-font monadic-modifier"
    } else if margs == 2 {
        "code-font dyadic-modifier"
    } else {
        "code-font triadic-modifier"
    }
}

/// The primitives that have style classes of their own.
#[derive(Clone, Copy, Debug, PartialEq, Eq, Structural)]
pub enum Marked {
    Identity,
    Transpose,
    Both,
    All,
}

/// What the style of a primitive goes by.
#[derive(Clone, Copy, Debug, PartialEq, Eq)]
pub struct PrimShape {
    /// Which of the primitives with classes of their own it is, if any.
    pub marked: Option<Marked>,
    /// Whether it belongs to the stack primitives.
    pub stack: bool,
    /// How many functions it takes, if it is a modifier.
    pub modifier_args: Option<usize>,
    /// How many values it takes, if that is fixed.
    pub args: Option<usize>,
}

/// The style classes of a primitive in code.
pub open spec fn prim_class_of(prim: PrimShape) -> Seq<char> {
    match prim.marked {
        Some(Marked::Identity) => "code-font stack-function"@,
        Some(Marked::Transpose) => "code-font monadic-function trans text-gradient"@,
        Some(Marked::Both) => "code-font monadic-modifier bi text-gradient"@,
        Some(Marked::All) => "code-font dyadic-modifier pan text-gradient"@,
        None => match prim.modifier_args {
            Some(functions) => if functions <= 1 {
                "code-font monadic-modifier"@
            } else if functions == 2 {
                "code-font dyadic-modifier"@
            } else {
                "code-font triadic-modifier"@
            },
            None => if prim.stack {
                "code-font stack-function"@
            } else {
                match prim.args {
                    Some(values) => if values == 0 {
                        "code-font noadic-function"@
                    } else if values == 1 {
                        "code-font monadic-function"@
                    } else if values == 2 {
                        "code-font dyadic-function"@
                    } else if values == 3 {
                        "code-font triadic-function"@
                    } else {
                        "code-font variadic-function"@
                    },
                    None => "code-font variadic-function"@,
                }
            },
        },
    }
}

/// The style classes of a primitive in code: four primitives have classes
/// of their own; a modifier goes by the number of functions it takes; a
/// stack primitive that is no modifier is a stack function; any other
/// function goes by the number of its arguments.
pub fn prim_class(prim: PrimShape) -> (r: &'static str)
    ensures
        r@ == prim_class_of(prim),
{
    match prim.marked {
        Some(Marked::Identity) => "code-font stack-function",
        Some(Marked::Transpose) => "code-font monadic-function trans text-gradient",
        Some(Marked::Both) => "code-font monadic-modifier bi text-gradient",
        Some(Marked::All) => "code-font dyadic-modifier pan text-gradient",
        None => match prim.modifier_args {
            Some(functions) => if functions <= 1 {
                "code-font monadic-modifier"
            } else if functions == 2 {
                "code-font dyadic-modifier"
            } else {
                "code-font triadic-modifier"
            },
            None => if prim.stack {
                "code-font stack-function"
            } else {
                match prim.args {
                    Some(values) => if values == 0 {
                        "code-font noadic-function"
                    } else if values == 1 {
                        "code-font monadic-function"
                    } else if values == 2 {
                        "code-font dyadic-function"
                    } else if values == 3 {
                        "code-font triadic-function"
                    } else {
                        "code-font variadic-function"
                    },
                    None => "code-font variadic-function",
                }
            },
        },
    }
}

/// What the link to a primitive's documentation is made from.
pub struct PrimText<'a> {
    /// How the primitive is written in code.
    pub symbol: &'a str,
    /// The primitive's name.
    pub name: &'a str,
    /// How the primitive is written in ASCII, if it can be.
    pub ascii: Option<&'a str>,
    /// Whether the primitive has a glyph.
    pub has_glyph: bool,
    /// The long name of the system operation, if the primitive is one.
    pub sys_long_name: Option<&'a str>,
    /// The first line of the primitive's documentation.
    pub short_doc: &'a str,
}

/// The link to a primitive's documentation.
#[derive(Debug, PartialEq, Eq)]
pub struct PrimLink {
    /// What follows the symbol in the link: a space and the name, or nothing.
    pub label: String,
    /// Where the link leads.
    pub href: String,
    /// What the link shows on hover; nothing is shown where it is empty.
    pub title: String,
}

/// What follows a primitive's symbol in its link: a space and the name,
/// unless only the glyph is wanted or the symbol is the name.
pub open spec fn prim_label_of(symbol: Seq<char>, name: Seq<char>, glyph_only: bool) -> Seq<char> {
    if !glyph_only && symbol != name {
        " "@ + name
    } else {
        Seq::empty()
    }
}

/// The ASCII spelling between parentheses, where there is one.
pub open spec fn title_ascii(ascii: Option<Seq<char>>) -> Seq<char> {
    match ascii {
        Some(ascii) => "("@ + ascii + ")"@,
        None => Seq::empty(),
    }
}

/// `title` and, where only the glyph is shown of a primitive that has one,
/// its name, with a space between the two.
pub open spec fn title_with_name(
    title: Seq<char>,
    name: Seq<char>,
    has_glyph: bool,
    glyph_only: bool,
) -> Seq<char> {
    if has_glyph && glyph_only {
        if title.len() > 0 {
            title + " "@ + name
        } else {
            name
        }
    } else {
        title
    }
}

/// `title` and, for a system operation, its long name, a colon and a line
/// break.
pub open spec fn title_with_sys(title: Seq<char>, sys_long_name: Option<Seq<char>>) -> Seq<char> {
    match sys_long_name {
        Some(long_name) => title + long_name + ":\n"@,
        None => title,
    }
}

/// `title` and, unless the documentation is hidden, its first line; a colon
/// and a space stand between the two where only the glyph is shown, the
/// title is not empty and the primitive is no system operation.
pub open spec fn title_with_doc(
    title: Seq<char>,
    short_doc: Seq<char>,
    is_sys: bool,
    glyph_only: bool,
    hide_docs: bool,
) -> Seq<char> {
    if hide_docs {
        title
    } else if glyph_only && title.len() > 0 && !is_sys {
        title + ": "@ + short_doc
    } else {
        title + short_doc
    }
}

/// What the link to a primitive's documentation shows on hover.
pub open spec fn prim_title_of(
    name: Seq<char>,
    ascii: Option<Seq<char>>,
    has_glyph: bool,
    sys_long_name: Option<Seq<char>>,
    short_doc: Seq<char>,
    glyph_only: bool,
    hide_docs: bool,
) -> Seq<char> {
    title_with_doc(
        title_with_sys(
            title_with_name(title_ascii(ascii), name, has_glyph, glyph_only),
            sys_long_name,
        ),
        short_doc,
        sys_long_name is Some,
        glyph_only,
        hide_docs,
    )
}

/// The view of a text that may be missing.
pub open spec fn text_of(text: Option<&str>) -> Option<Seq<char>> {
    match text {
        Some(text) => Some(text@),
        None => None,
    }
}

/// The link to a primitive's documentation: what follows the symbol, the
/// address, and the text shown on hover.
pub fn prim_link(prim: PrimText<'_>, glyph_only: bool, hide_docs: bool) -> (r: PrimLink)
    ensures
        r.label@ == prim_label_of(prim.symbol@, prim.name@, glyph_only),
        r.href@ == "https://www.uiua.org/docs/"@ + prim.name@,
        r.title@ == prim_title_of(
            prim.name@,
            text_of(prim.ascii),
            prim.has_glyph,
            text_of(prim.sys_long_name),
            prim.short_doc@,
            glyph_only,
            hide_docs,
        ),
{
    let mut label = String::new();
    if !glyph_only && !same_text(prim.symbol, prim.name) {
        label.append(" ");
        label.append(prim.name);
        assert(label@ =~= " "@ + prim.name@);
    }
    let mut href = "https://www.uiua.org/docs/".to_owned();
    href.append(prim.name);
    let mut title = String::new();
    if let Some(ascii) = prim.ascii {
        title.append("(");
        title.append(ascii);
        title.append(")");
        assert(title@ =~= "("@ + ascii@ + ")"@);
    }
    let ghost with_ascii = title@;
    assert(with_ascii == title_ascii(text_of(prim.ascii)));
    if prim.has_glyph && glyph_only {
        if title.as_str().unicode_len() > 0 {
            title.append(" ");
        }
        title.append(prim.name);
        assert(title@ =~= title_with_name(with_ascii, prim.name@, true, true));
    }
    let ghost with_name = title@;
    if let Some(long_name) = prim.sys_long_name {
        title.append(long_name);
        title.append(":\n");
        assert(title@ =~= with_name + long_name@ + ":\n"@);
    }
    let ghost with_sys = title@;
    if !hide_docs {
        if glyph_only && title.as_str().unicode_len() > 0 && prim.sys_long_name.is_none() {
            title.append(": ");
        }
        title.append(prim.short_doc);
        assert(title@ =~= title_with_doc(
            with_sys,
            prim.short_doc@,
            prim.sys_long_name is Some,
            glyph_only,
            false,
        ));
    }
    PrimLink { label, href, title }
}

} // verus!
