use uiua::site::{
    binding_class, blog_entry, count_char, decode_text, decoded_or_plain, pad_source, page_name,
    prim_class, prim_link, resolved_or_plain, split_or_empty, versioned_payload, BlogEntry, Marked,
    PrimLink, PrimShape, PrimText, Signature,
};

#[test]
fn pad_source_decodes_the_whole_parameter() {
    assert_eq!(pad_source("aGVsbG8=".to_string()), "hello");
    assert_eq!(pad_source("4oeMWzEgMiAzXQ==".to_string()), "⇌[1 2 3]");
    assert_eq!(pad_source("".to_string()), "");
}

#[test]
fn pad_source_decodes_the_payload_behind_a_version() {
    assert_eq!(pad_source("0_2_1__aGVsbG8=".to_string()), "hello");
    assert_eq!(pad_source("0_2_1__4oeMWzEgMiAzXQ==".to_string()), "⇌[1 2 3]");
}

#[test]
fn pad_source_keeps_what_does_not_decode() {
    assert_eq!(pad_source("+ 1 2".to_string()), "+ 1 2");
    assert_eq!(pad_source("aGVsbG8".to_string()), "aGVsbG8");
    assert_eq!(pad_source("0_2__aGVsbG8=".to_string()), "0_2__aGVsbG8=");
    assert_eq!(pad_source("0_2_1__not base64".to_string()), "0_2_1__not base64");
    assert_eq!(pad_source("0_2_1_aGVsbG8=".to_string()), "0_2_1_aGVsbG8=");
}

#[test]
fn pad_source_replaces_bytes_that_are_not_utf8() {
    assert_eq!(pad_source("_w==".to_string()), "\u{fffd}");
    assert_eq!(decode_text("aP9p"), Some("h\u{fffd}i".to_string()));
}

#[test]
fn decode_text_reads_url_safe_base64_with_padding() {
    assert_eq!(decode_text("aGk="), Some("hi".to_string()));
    assert_eq!(decode_text("Pz8_"), Some("???".to_string()));
    assert_eq!(decode_text("Pz8/"), None);
    assert_eq!(decode_text("aGk"), None);
    assert_eq!(decode_text("a b"), None);
}

#[test]
fn decoded_text_comes_before_payload_and_payload_before_plain() {
    let plain = || "plain".to_string();
    let whole = || Some("whole".to_string());
    let payload = || Some("payload".to_string());
    assert_eq!(decoded_or_plain(plain(), whole(), payload()), "whole");
    assert_eq!(decoded_or_plain(plain(), whole(), None), "whole");
    assert_eq!(decoded_or_plain(plain(), None, payload()), "payload");
    assert_eq!(decoded_or_plain(plain(), None, None), "plain");
}

#[test]
fn versioned_payload_needs_two_underscores_before_the_double() {
    assert_eq!(versioned_payload("0_2_1__abc"), Some("abc"));
    assert_eq!(versioned_payload("0_2_1__a__b"), Some("a__b"));
    assert_eq!(versioned_payload("0_2_1__"), Some(""));
    assert_eq!(versioned_payload("0_2__abc"), None);
    assert_eq!(versioned_payload("0_2_1_3__abc"), None);
    assert_eq!(versioned_payload("__abc"), None);
    assert_eq!(versioned_payload("0_2_1_abc"), None);
    assert_eq!(versioned_payload(""), None);
    assert_eq!(versioned_payload("é_è_ê__ü"), Some("ü"));
}

#[test]
fn count_char_counts_characters() {
    assert_eq!(count_char("", '_'), 0);
    assert_eq!(count_char("a_b_c", '_'), 2);
    assert_eq!(count_char("___", '_'), 3);
    assert_eq!(count_char("é_é", 'é'), 2);
}

#[test]
fn page_name_resolves_percent_escapes() {
    assert_eq!(page_name(Some("a%20b")), "a b");
    assert_eq!(page_name(Some("caf%C3%A9")), "café");
    assert_eq!(page_name(Some("plain")), "plain");
    assert_eq!(page_name(Some("a+b")), "a+b");
    assert_eq!(page_name(Some("50%")), "50%");
}

#[test]
fn page_name_keeps_what_does_not_resolve_to_utf8() {
    assert_eq!(page_name(Some("%FF")), "%FF");
    assert_eq!(page_name(None), "");
    assert_eq!(page_name(Some("")), "");
}

#[test]
fn resolved_name_comes_before_the_plain_one() {
    assert_eq!(resolved_or_plain("a%20b", Some("a b".to_string())), "a b");
    assert_eq!(resolved_or_plain("%FF", None), "%FF");
}

#[test]
fn blog_entry_takes_a_line_apart() {
    assert_eq!(
        blog_entry("day-1: 2023-12-01 - Trebuchet?!"),
        BlogEntry {
            path: "day-1".to_string(),
            date: "2023-12-01".to_string(),
            name: "Trebuchet?!".to_string(),
        }
    );
    assert_eq!(
        blog_entry("a: b: c - d - e"),
        BlogEntry { path: "a".to_string(), date: "b: c".to_string(), name: "d - e".to_string() }
    );
}

#[test]
fn blog_entry_leaves_empty_what_is_missing() {
    let empty = || BlogEntry { path: String::new(), date: String::new(), name: String::new() };
    assert_eq!(blog_entry("no delimiters"), empty());
    assert_eq!(blog_entry(""), empty());
    assert_eq!(blog_entry("path: no date"), BlogEntry { path: "path".to_string(), ..empty() });
    assert_eq!(split_or_empty("a: b", ": "), ("a", "b"));
    assert_eq!(split_or_empty("a:b", ": "), ("", ""));
}

#[test]
fn binding_class_of_names_with_colours() {
    let sig = Signature { args: 1, outputs: 1 };
    assert_eq!(binding_class("Trans", sig, 0, false), "code-font trans text-gradient");
    assert_eq!(binding_class("Bi", sig, 0, false), "code-font bi text-gradient");
    assert_eq!(binding_class("Pan", sig, 0, false), "code-font pan text-gradient");
    assert_eq!(binding_class("Gay", sig, 0, false), "code-font gay text-gradient");
    assert_eq!(binding_class("Ace", sig, 0, false), "code-font ace text-gradient");
    assert_eq!(binding_class("Nb", sig, 0, false), "code-font nb text-gradient");
    assert_eq!(binding_class("Enby", sig, 2, true), "code-font nb text-gradient");
    assert_eq!(binding_class("Fluid", sig, 0, false), "code-font fluid text-gradient");
    assert_eq!(binding_class("Queer", sig, 0, false), "code-font queer text-gradient");
    assert_eq!(binding_class("trans", sig, 0, false), "code-font monadic-function");
}

#[test]
fn binding_class_of_constants_functions_and_modifiers() {
    let sig = |args, outputs| Signature { args, outputs };
    assert_eq!(binding_class("X", sig(0, 1), 0, true), "code-font ");
    assert_eq!(binding_class("X", sig(0, 1), 0, false), "code-font noadic-function");
    assert_eq!(binding_class("X", sig(1, 1), 0, false), "code-font monadic-function");
    assert_eq!(binding_class("X", sig(2, 1), 0, false), "code-font dyadic-function");
    assert_eq!(binding_class("X", sig(3, 1), 0, false), "code-font triadic-function");
    assert_eq!(binding_class("X", sig(3, 0), 0, false), "code-font triadic-function");
    assert_eq!(binding_class("X", sig(4, 2), 0, false), "code-font tetradic-function");
    assert_eq!(binding_class("X", sig(5, 7), 0, false), "code-font pentadic-function");
    assert_eq!(binding_class("X", sig(6, 1), 0, false), "code-font ");
    assert_eq!(binding_class("X", sig(0, 0), 0, false), "code-font ");
    assert_eq!(binding_class("X", sig(1, 2), 0, false), "code-font ");
    assert_eq!(binding_class("X", sig(2, 2), 0, false), "code-font ");
    assert_eq!(binding_class("X", sig(1, 1), 1, false), "code-font monadic-modifier");
    assert_eq!(binding_class("X", sig(1, 1), 2, false), "code-font dyadic-modifier");
    assert_eq!(binding_class("X", sig(1, 1), 3, false), "code-font triadic-modifier");
    assert_eq!(binding_class("X", sig(1, 1), 9, false), "code-font triadic-modifier");
}

#[test]
fn prim_class_of_every_kind() {
    let plain = PrimShape { marked: None, stack: false, modifier_args: None, args: None };
    let marked = |marked| PrimShape { marked: Some(marked), stack: true, modifier_args: Some(2), ..plain };
    assert_eq!(prim_class(marked(Marked::Identity)), "code-font stack-function");
    assert_eq!(
        prim_class(marked(Marked::Transpose)),
        "code-font monadic-function trans text-gradient"
    );
    assert_eq!(prim_class(marked(Marked::Both)), "code-font monadic-modifier bi text-gradient");
    assert_eq!(prim_class(marked(Marked::All)), "code-font dyadic-modifier pan text-gradient");
    assert_eq!(
        prim_class(PrimShape { stack: true, args: Some(2), ..plain }),
        "code-font stack-function"
    );
    let modifier = |functions, stack| PrimShape { modifier_args: Some(functions), stack, ..plain };
    assert_eq!(prim_class(modifier(0, false)), "code-font monadic-modifier");
    assert_eq!(prim_class(modifier(1, true)), "code-font monadic-modifier");
    assert_eq!(prim_class(modifier(2, false)), "code-font dyadic-modifier");
    assert_eq!(prim_class(modifier(3, false)), "code-font triadic-modifier");
    assert_eq!(prim_class(modifier(4, true)), "code-font triadic-modifier");
    let function = |values| PrimShape { args: Some(values), ..plain };
    assert_eq!(prim_class(function(0)), "code-font noadic-function");
    assert_eq!(prim_class(function(1)), "code-font monadic-function");
    assert_eq!(prim_class(function(2)), "code-font dyadic-function");
    assert_eq!(prim_class(function(3)), "code-font triadic-function");
    assert_eq!(prim_class(function(4)), "code-font variadic-function");
    assert_eq!(prim_class(plain), "code-font variadic-function");
}

fn reverse() -> PrimText<'static> {
    PrimText {
        symbol: "⇌",
        name: "reverse",
        ascii: None,
        has_glyph: true,
        sys_long_name: None,
        short_doc: "Reverse the rows of an array",
    }
}

#[test]
fn prim_link_with_name_and_documentation() {
    assert_eq!(
        prim_link(reverse(), false, false),
        PrimLink {
            label: " reverse".to_string(),
            href: "https://www.uiua.org/docs/reverse".to_string(),
            title: "Reverse the rows of an array".to_string(),
        }
    );
}

#[test]
fn prim_link_with_the_glyph_only() {
    let link = prim_link(reverse(), true, false);
    assert_eq!(link.label, "");
    assert_eq!(link.title, "reverse: Reverse the rows of an array");
    assert_eq!(prim_link(reverse(), true, true).title, "reverse");
    assert_eq!(prim_link(reverse(), false, true).title, "");
}

#[test]
fn prim_link_with_an_ascii_spelling() {
    let not_equals = PrimText {
        symbol: "≠",
        name: "not equals",
        ascii: Some("!="),
        has_glyph: true,
        sys_long_name: None,
        short_doc: "Compare for inequality",
    };
    assert_eq!(prim_link(PrimText { ..not_equals }, true, false).title, "(!=) not equals: Compare for inequality");
    assert_eq!(prim_link(PrimText { ..not_equals }, false, false).title, "(!=)Compare for inequality");
    assert_eq!(prim_link(PrimText { ..not_equals }, true, true).title, "(!=) not equals");
    let plus = PrimText { symbol: "+", name: "add", ascii: Some("+"), has_glyph: false, ..not_equals };
    assert_eq!(prim_link(plus, true, false).title, "(+): Compare for inequality");
}

#[test]
fn prim_link_of_a_system_operation() {
    let show = PrimText {
        symbol: "&s",
        name: "&s",
        ascii: None,
        has_glyph: false,
        sys_long_name: Some("show"),
        short_doc: "Print a value",
    };
    let link = prim_link(PrimText { ..show }, false, false);
    assert_eq!(link.label, "");
    assert_eq!(link.href, "https://www.uiua.org/docs/&s");
    assert_eq!(link.title, "show:\nPrint a value");
    assert_eq!(prim_link(PrimText { ..show }, true, false).title, "show:\nPrint a value");
    assert_eq!(prim_link(PrimText { ..show }, true, true).title, "show:\n");
}
