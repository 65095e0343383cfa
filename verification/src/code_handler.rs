//! The code handler: fences block code and wraps inline code in
//! backticks.
//!
//! A `pre` element becomes a fenced block, opened on its own blank line
//! and tagged with the language detected from the `class` attribute.  An
//! inline `code` or `samp` element is wrapped in single backticks — unless
//! the `code` element sits directly under a `pre`, in which case the block
//! is already active and no further markup is added on either side.

use vstd::prelude::*;
use vstd::string::{StrSliceExecFns, StringExecFns};

use crate::buffer::OutputBuffer;
use crate::chain::{spec_top_is, ParentChain};
use crate::dom::{spec_attr, Element};
use crate::strutil;

verus! {

/// A tag name this handler covers.
pub open spec fn is_code_name(t: Seq<char>) -> bool {
    t == "pre"@ || t == "code"@ || t == "samp"@
}

/// ASCII whitespace, the separator between class tokens.
pub open spec fn is_space(c: char) -> bool {
    c == ' ' || c == '\t' || c == '\n' || c == '\r' || c == '\u{c}'
}

/// The least index at or after `from` holding a non-space character, or
/// `s.len()` if spaces run to the end.
pub open spec fn token_start(s: Seq<char>, from: int) -> int
    decreases s.len() - from,
{
    if from < 0 || from >= s.len() {
        s.len() as int
    } else if !is_space(s[from]) {
        from
    } else {
        token_start(s, from + 1)
    }
}

/// The least index at or after `from` holding a space, or `s.len()` if the
/// token runs to the end.
pub open spec fn token_end(s: Seq<char>, from: int) -> int
    decreases s.len() - from,
{
    if from < 0 || from >= s.len() {
        s.len() as int
    } else if is_space(s[from]) {
        from
    } else {
        token_end(s, from + 1)
    }
}

pub proof fn lemma_token_start_props(s: Seq<char>, from: int)
    requires
        0 <= from <= s.len(),
    ensures
        from <= token_start(s, from) <= s.len(),
        token_start(s, from) < s.len() ==> !is_space(s[token_start(s, from)]),
    decreases s.len() - from,
{
    if from < s.len() && is_space(s[from]) {
        lemma_token_start_props(s, from + 1);
    }
}

pub proof fn lemma_token_end_props(s: Seq<char>, from: int)
    requires
        0 <= from <= s.len(),
    ensures
        from <= token_end(s, from) <= s.len(),
        from < s.len() && !is_space(s[from]) ==> token_end(s, from) >= from + 1,
    decreases s.len() - from,
{
    if from < s.len() && !is_space(s[from]) {
        lemma_token_end_props(s, from + 1);
    }
}

/// Some whitespace-separated token of `s` at or after `from` is the
/// literal `rust`.
pub open spec fn has_rust_token(s: Seq<char>, from: int) -> bool
    decreases s.len() - from,
{
    if from < 0 {
        false
    } else {
        let st = token_start(s, from);
        if st >= s.len() {
            false
        } else {
            let en = token_end(s, st);
            proof {
                lemma_token_start_props(s, from);
                lemma_token_end_props(s, st);
            }
            s.subrange(st, en) == "rust"@ || has_rust_token(s, en)
        }
    }
}

/// The suffix of the last `language-`-prefixed token of `s` at or after
/// `from`, starting from `cur`.
pub open spec fn suffix_scan(s: Seq<char>, from: int, cur: Option<Seq<char>>) -> Option<Seq<char>>
    decreases s.len() - from,
{
    if from < 0 {
        cur
    } else {
        let st = token_start(s, from);
        if st >= s.len() {
            cur
        } else {
            let en = token_end(s, st);
            proof {
                lemma_token_start_props(s, from);
                lemma_token_end_props(s, st);
            }
            let tok = s.subrange(st, en);
            let next = if strutil::spec_starts_with(tok, "language-"@) {
                Some(tok.skip("language-"@.len() as int))
            } else {
                cur
            };
            suffix_scan(s, en, next)
        }
    }
}

/// The language recorded from a `class` attribute, if any: a token equal
/// to the literal `rust` takes priority; otherwise the suffix of a
/// `language-`-prefixed token, the last one when there are several.
pub open spec fn spec_language(class: Option<Seq<char>>) -> Option<Seq<char>> {
    match class {
        Some(c) => if has_rust_token(c, 0) {
            Some("rust"@)
        } else {
            suffix_scan(c, 0, None)
        },
        None => None,
    }
}

/// What a code element adds to the buffer on entry, given its tag, the
/// parent chain, the detected language and the buffer contents so far.
pub open spec fn code_entry(
    tag: Seq<char>,
    chain: Seq<Seq<char>>,
    lang: Option<Seq<char>>,
    acc: Seq<char>,
) -> Seq<char> {
    if tag == "code"@ && spec_top_is(chain, "pre"@) {
        Seq::empty()
    } else if tag == "pre"@ {
        fence_open(acc, lang)
    } else {
        "`"@
    }
}

/// What a code element adds to the buffer on exit.
pub open spec fn code_exit(tag: Seq<char>, chain: Seq<Seq<char>>, acc: Seq<char>) -> Seq<char> {
    if tag == "code"@ && spec_top_is(chain, "pre"@) {
        Seq::empty()
    } else if tag == "pre"@ {
        fence_close(acc)
    } else {
        "`"@
    }
}

/// The opening fence: a newline if the buffer does not end with one, a
/// blank line, three backticks, the language tag and a newline.
pub open spec fn fence_open(acc: Seq<char>, lang: Option<Seq<char>>) -> Seq<char> {
    let pad = if strutil::spec_ends_with_newline(acc) {
        Seq::<char>::empty()
    } else {
        "\n"@
    };
    pad + "\n"@ + "```"@ + (match lang {
        Some(l) => l,
        None => Seq::<char>::empty(),
    }) + "\n"@
}

/// The closing fence: a newline if the buffer does not end with one, three
/// backticks and a newline.
pub open spec fn fence_close(acc: Seq<char>) -> Seq<char> {
    let pad = if strutil::spec_ends_with_newline(acc) {
        Seq::<char>::empty()
    } else {
        "\n"@
    };
    pad + "```"@ + "\n"@
}

fn scan_token_start(s: &str, from: usize, n: usize) -> (r: usize)
    requires
        n == s@.len(),
        from <= n,
    ensures
        r == token_start(s@, from as int),
        from <= r <= n,
{
    let mut p = from;
    while p < n
        invariant
            n == s@.len(),
            from <= p <= n,
            token_start(s@, from as int) == token_start(s@, p as int),
        decreases n - p,
    {
        let c = s.get_char(p);
        if !(c == ' ' || c == '\t' || c == '\n' || c == '\r' || c == '\u{c}') {
            return p;
        }
        p += 1;
    }
    p
}

fn scan_token_end(s: &str, from: usize, n: usize) -> (r: usize)
    requires
        n == s@.len(),
        from <= n,
    ensures
        r == token_end(s@, from as int),
        from <= r <= n,
{
    let mut p = from;
    while p < n
        invariant
            n == s@.len(),
            from <= p <= n,
            token_end(s@, from as int) == token_end(s@, p as int),
        decreases n - p,
    {
        let c = s.get_char(p);
        if c == ' ' || c == '\t' || c == '\n' || c == '\r' || c == '\u{c}' {
            return p;
        }
        p += 1;
    }
    p
}

/// Detect the language named by a `class` attribute value.
pub fn detect_language(class: &str) -> (r: Option<String>)
    ensures
        r.deep_view() == spec_language(Some(class@)),
{
    let n = class.unicode_len();
    let mut saw_rust: bool = false;
    let mut suffix: Option<String> = None;
    let mut pos: usize = 0;
    while pos < n
        invariant
            n == class@.len(),
            pos <= n,
            has_rust_token(class@, 0) == (saw_rust || has_rust_token(class@, pos as int)),
            suffix_scan(class@, 0, None::<Seq<char>>) == suffix_scan(
                class@,
                pos as int,
                suffix.deep_view(),
            ),
        decreases n - pos,
    {
        let ghost suffix0: Option<Seq<char>> = suffix.deep_view();
        let st = scan_token_start(class, pos, n);
        if st >= n {
            proof {
                assert(!has_rust_token(class@, pos as int));
                assert(suffix_scan(class@, pos as int, suffix0) == suffix0);
                assert(!has_rust_token(class@, n as int));
                assert(suffix_scan(class@, n as int, suffix0) == suffix0);
            }
            pos = n;
        } else {
            let en = scan_token_end(class, st, n);
            proof {
                lemma_token_end_props(class@, st as int);
                lemma_token_start_props(class@, pos as int);
            }
            let tok = class.substring_char(st, en);
            if strutil::str_eq(tok, "rust") {
                saw_rust = true;
            } else if strutil::str_starts_with(tok, "language-") {
                proof {
                    reveal_strlit("language-");
                }
                let m = tok.unicode_len();
                suffix = Some(tok.substring_char(9, m).to_owned());
                proof {
                    assert(tok@.subrange(9, tok@.len() as int) =~= tok@.skip(
                        "language-"@.len() as int,
                    ));
                }
            }
            proof {
                reveal_strlit("rust");
                reveal_strlit("language-");
                assert("rust"@.len() == 4);
                assert("language-"@.len() == 9);
                assert(has_rust_token(class@, pos as int) == (class@.subrange(
                    st as int,
                    en as int,
                ) == "rust"@ || has_rust_token(class@, en as int)));
                assert(suffix_scan(class@, pos as int, suffix0) == suffix_scan(
                    class@,
                    en as int,
                    suffix.deep_view(),
                ));
            }
            pos = en;
        }
    }
    proof {
        assert(!has_rust_token(class@, n as int));
        assert(suffix_scan(class@, n as int, suffix.deep_view()) == suffix.deep_view());
        reveal_strlit("rust");
    }
    if saw_rust {
        Some(String::from_str("rust"))
    } else {
        suffix
    }
}

/// Decide whether a tag name belongs to this handler.
pub fn is_code_tag(name: &str) -> (r: bool)
    ensures
        r == is_code_name(name@),
{
    strutil::str_eq(name, "pre") || strutil::str_eq(name, "code") || strutil::str_eq(name, "samp")
}

/// Per-element state of the code handler.
pub struct CodeHandler {
    pub code_type: Option<String>,
    pub language: Option<String>,
}

impl CodeHandler {
    /// A fresh handler, created per matched element.
    pub fn new() -> (r: Self)
        ensures
            r.code_type is None,
            r.language is None,
    {
        CodeHandler { code_type: None, language: None }
    }

    /// Entry: record the tag family and the detected language, then emit
    /// the opening markup.
    pub fn handle(&mut self, tag: &Element, printer: &mut OutputBuffer, chain: &ParentChain)
        requires
            is_code_name(tag.name@),
        ensures
            final(self).code_type.deep_view() == Some(tag.name@),
            final(self).language.deep_view() == spec_language(spec_attr(tag.attrs@, "class"@)),
            final(printer)@ == old(printer)@ + code_entry(
                tag.name@,
                chain@,
                spec_language(spec_attr(tag.attrs@, "class"@)),
                old(printer)@,
            ),
    {
        self.code_type = Some(tag.name.clone());
        self.language = match tag.attr("class") {
            Some(c) => detect_language(c.as_str()),
            None => None,
        };
        self.emit_markup(tag, printer, chain, true);
    }

    /// Exit: emit the closing markup, mirroring the entry decision.
    pub fn after_handle(&mut self, tag: &Element, printer: &mut OutputBuffer, chain: &ParentChain)
        requires
            is_code_name(tag.name@),
        ensures
            *final(self) == *old(self),
            final(printer)@ == old(printer)@ + code_exit(tag.name@, chain@, old(printer)@),
    {
        self.emit_markup(tag, printer, chain, false);
    }

    /// Shared entry/exit emission: nothing when a directly-nested `code`
    /// sits inside an active `pre` block, a fence line for `pre`, a single
    /// backtick for inline code.
    fn emit_markup(&mut self, tag: &Element, printer: &mut OutputBuffer, chain: &ParentChain, start:
        bool)
        requires
            is_code_name(tag.name@),
        ensures
            *final(self) == *old(self),
            start ==> final(printer)@ == old(printer)@ + code_entry(
                tag.name@,
                chain@,
                old(self).language.deep_view(),
                old(printer)@,
            ),
            !start ==> final(printer)@ == old(printer)@ + code_exit(
                tag.name@,
                chain@,
                old(printer)@,
            ),
    {
        proof {
            reveal_strlit("\n");
        }
        let nested = strutil::str_eq(tag.name.as_str(), "code") && (match chain.last() {
            Some(t) => strutil::str_eq(t.as_str(), "pre"),
            None => false,
        });
        if nested {
            proof {
                assert(printer@ =~= old(printer)@ + Seq::<char>::empty());
            }
            return ;
        }
        if strutil::str_eq(tag.name.as_str(), "pre") {
            if !printer.ends_with_newline() {
                printer.append("\n");
            }
            if start {
                printer.append("\n");
            }
            printer.append("```");
            if start {
                if let Some(l) = &self.language {
                    printer.append(l.as_str());
                }
            }
            printer.append("\n");
            proof {
                if start {
                    assert(printer@ =~= old(printer)@ + fence_open(
                        old(printer)@,
                        old(self).language.deep_view(),
                    ));
                } else {
                    assert(printer@ =~= old(printer)@ + fence_close(old(printer)@));
                }
            }
        } else {
            printer.append("`");
            proof {
                assert(printer@ =~= old(printer)@ + "`"@);
            }
        }
    }
}

} // verus!
