use vstd::prelude::*;

use crate::error::Error;
use crate::text::{regex_removed, remove_matches, texts_of};

verus! {

/// A top-level token of a stylesheet, as far as import extraction reads it.
#[derive(Debug)]
pub enum CssToken {
    /// An at-keyword such as `@import`, without its `@`.
    AtKeyword(String),
    /// A function token such as `url(`, with its name, and the one quoted
    /// string that its block holds, or a description of why it holds none.
    Function(String, Result<String, String>),
    /// Any other token.
    Other,
}

/// The model of a [`CssToken`].
pub enum Tok {
    AtKeyword(Seq<char>),
    Function(Seq<char>, Result<Seq<char>, Seq<char>>),
    Other,
}

impl CssToken {
    pub open spec fn view(&self) -> Tok {
        match self {
            CssToken::AtKeyword(k) => Tok::AtKeyword(k@),
            CssToken::Function(f, Ok(s)) => Tok::Function(f@, Ok(s@)),
            CssToken::Function(f, Err(m)) => Tok::Function(f@, Err(m@)),
            CssToken::Other => Tok::Other,
        }
    }
}

/// The views of tokens.
pub open spec fn toks_view(v: Seq<CssToken>) -> Seq<Tok> {
    v.map_values(|t: CssToken| t.view())
}

/// The top-level tokens of a stylesheet, whitespace and comments skipped.
pub uninterp spec fn css_tokens(css: Seq<char>) -> Seq<Tok>;

/// Relies on `cssparser::Parser::next`, which yields the top-level tokens
/// (skipping whitespace, comments and the content of blocks) until the end
/// of input, and on `Parser::parse_nested_block` with `expect_string`,
/// which reads a function's block as one quoted string and then consumes
/// the rest of the block, as `next` would have skipped it.
#[verifier::external_body]
fn scan_css(css: &str) -> (r: Vec<CssToken>)
    ensures
        toks_view(r@) == css_tokens(css@),
{
    let mut input = cssparser::ParserInput::new(css);
    let mut parser = cssparser::Parser::new(&mut input);
    let mut tokens = Vec::new();
    while let Ok(token) = parser.next() {
        tokens.push(match token.clone() {
            cssparser::Token::AtKeyword(k) => CssToken::AtKeyword(k.to_string()),
            cssparser::Token::Function(f) => CssToken::Function(f.to_string(), parser
                .parse_nested_block::<_, _, ()>(|p| Ok(p.expect_string()?.to_string()))
                .map_err(|e| format!("{:?}", e))),
            _ => CssToken::Other,
        });
    }
    tokens
}

/// The code of `c` with ASCII upper-case letters mapped to lower case.
pub open spec fn ascii_lower(c: char) -> u32 {
    if 'A' <= c <= 'Z' {
        (c as u32 + 32) as u32
    } else {
        c as u32
    }
}

/// `a` and `b` are equal but for the case of ASCII letters.
pub open spec fn eq_ignore_case(a: Seq<char>, b: Seq<char>) -> bool {
    a.len() == b.len() && forall|i: int| 0 <= i < a.len() ==> ascii_lower(#[trigger] a[i])
        == ascii_lower(b[i])
}

fn lower(c: char) -> (r: u32)
    ensures
        r == ascii_lower(c),
{
    if 'A' <= c && c <= 'Z' {
        c as u32 + 32
    } else {
        c as u32
    }
}

/// Whether `a` and `b` are equal but for the case of ASCII letters.
pub fn eq_ignore_ascii_case(a: &str, b: &str) -> (r: bool)
    ensures
        r == eq_ignore_case(a@, b@),
{
    let n = a.unicode_len();
    if n != b.unicode_len() {
        return false;
    }
    let mut i: usize = 0;
    while i < n
        invariant
            n == a@.len(),
            n == b@.len(),
            i <= n,
            forall|j: int| 0 <= j < i ==> ascii_lower(#[trigger] a@[j]) == ascii_lower(b@[j]),
        decreases n - i,
    {
        if lower(a.get_char(i)) != lower(b.get_char(i)) {
            return false;
        }
        i = i + 1;
    }
    true
}

/// The state of import extraction after some tokens.
pub struct ImportScan {
    /// The last token that counts is an `@import` keyword.
    pub after_import: bool,
    pub urls: Seq<Seq<char>>,
    /// Why an import's block holds no quoted string, once one is met.
    pub error: Option<Seq<char>>,
}

/// Import extraction over the first `n` tokens: a `url(` function right
/// after an `@import` keyword gives the string in its block, and leaves the
/// keyword as the last token that counts.
pub open spec fn scan_imports(toks: Seq<Tok>, n: nat) -> ImportScan
    decreases n,
{
    if n == 0 {
        ImportScan { after_import: false, urls: seq![], error: None }
    } else {
        let st = scan_imports(toks, (n - 1) as nat);
        if st.error is Some {
            st
        } else {
            match toks[n - 1] {
                Tok::Function(name, res) => if st.after_import && eq_ignore_case(name, "url"@) {
                    match res {
                        Ok(u) => ImportScan { after_import: true, urls: st.urls.push(u), error: None },
                        Err(m) => ImportScan { after_import: true, urls: st.urls, error: Some(m) },
                    }
                } else {
                    ImportScan { after_import: false, urls: st.urls, error: None }
                },
                Tok::AtKeyword(k) => ImportScan {
                    after_import: eq_ignore_case(k, "import"@),
                    urls: st.urls,
                    error: None,
                },
                Tok::Other => ImportScan { after_import: false, urls: st.urls, error: None },
            }
        }
    }
}

/// The pattern of an `@import url(...)` statement, with its `;`.
pub open spec fn import_pattern() -> Seq<char> {
    "@import\\s+url\\([^\\)]+\\);?"@
}

/// The URLs that the `@import` statements of a tokenized stylesheet name,
/// in order, or the error of the first one whose block holds no quoted
/// string.
pub fn import_urls_of(tokens: &Vec<CssToken>) -> (r: Result<Vec<String>, Error>)
    ensures
        match scan_imports(toks_view(tokens@), tokens@.len()).error {
            Some(m) => r matches Err(Error::CssParse(e)) && e@ == m,
            None => r matches Ok(urls) && texts_of(urls@) == scan_imports(
                toks_view(tokens@),
                tokens@.len(),
            ).urls,
        },
{
    let ghost toks = toks_view(tokens@);
    let mut urls: Vec<String> = Vec::new();
    let mut after_import = false;
    let mut i: usize = 0;
    while i < tokens.len()
        invariant
            toks == toks_view(tokens@),
            i <= tokens@.len(),
            scan_imports(toks, i as nat).error is None,
            scan_imports(toks, i as nat).after_import == after_import,
            scan_imports(toks, i as nat).urls == texts_of(urls@),
        decreases tokens@.len() - i,
    {
        proof {
            reveal_strlit("url");
            reveal_strlit("import");
        }
        assert(toks[i as int] == tokens@[i as int].view());
        match &tokens[i] {
            CssToken::Function(name, res) => {
                if after_import && eq_ignore_ascii_case(name.as_str(), "url") {
                    match res {
                        Ok(u) => {
                            urls.push(u.clone());
                            assert(texts_of(urls@) =~= scan_imports(toks, (i + 1) as nat).urls);
                        },
                        Err(m) => {
                            proof { lemma_error_stays(toks, (i + 1) as nat, tokens@.len()); }
                            return Err(Error::CssParse(m.clone()));
                        },
                    }
                } else {
                    after_import = false;
                }
            },
            CssToken::AtKeyword(k) => {
                after_import = eq_ignore_ascii_case(k.as_str(), "import");
            },
            CssToken::Other => {
                after_import = false;
            },
        }
        i = i + 1;
    }
    Ok(urls)
}

/// Once an error is met, the scan keeps it.
proof fn lemma_error_stays(toks: Seq<Tok>, n: nat, m: nat)
    requires
        n <= m,
        scan_imports(toks, n).error is Some,
    ensures
        scan_imports(toks, m) == scan_imports(toks, n),
    decreases m - n,
{
    if n < m {
        lemma_error_stays(toks, n, (m - 1) as nat);
    }
}

/// Extracts the `@import url(...)` statements of a stylesheet: the URLs
/// that the tokenizer reads in them, in order, and the stylesheet with
/// every text that the import pattern matches removed.
pub fn import_urls(css: &str) -> (r: Result<(String, Vec<String>), Error>)
    ensures
        match scan_imports(css_tokens(css@), css_tokens(css@).len()).error {
            Some(m) => r matches Err(Error::CssParse(e)) && e@ == m,
            None => r matches Ok((s, urls)) && texts_of(urls@) == scan_imports(
                css_tokens(css@),
                css_tokens(css@).len(),
            ).urls && s@ == regex_removed(import_pattern(), css@),
        },
{
    let tokens = scan_css(css);
    assert(toks_view(tokens@).len() == tokens@.len());
    let urls = import_urls_of(&tokens)?;
    match remove_matches("@import\\s+url\\([^\\)]+\\);?", css) {
        Ok(s) => Ok((s, urls)),
        Err(m) => Err(Error::Regex(m)),
    }
}

/// The tokens of one well-formed import statement: `@import`, `url("u")`
/// and the `;` that ends it.
pub open spec fn import_statement(u: Seq<char>) -> Seq<Tok> {
    seq![Tok::AtKeyword("import"@), Tok::Function("url"@, Ok(u)), Tok::Other]
}

/// The token is an `@import` keyword.
pub open spec fn is_import_keyword(t: Tok) -> bool {
    t matches Tok::AtKeyword(k) && eq_ignore_case(k, "import"@)
}

/// Other stylesheet content: tokens with no `@import` keyword among them.
pub open spec fn other_content(chunk: Seq<Tok>) -> bool {
    forall|i: int| 0 <= i < chunk.len() ==> !is_import_keyword(#[trigger] chunk[i])
}

/// A stylesheet of well-formed import statements for `urls`, with the
/// other content `chunks` before, between and after them.
pub open spec fn stylesheet_tokens(urls: Seq<Seq<char>>, chunks: Seq<Seq<Tok>>) -> Seq<Tok>
    decreases urls.len(),
{
    if urls.len() == 0 || chunks.len() == 0 {
        if chunks.len() == 0 {
            seq![]
        } else {
            chunks[0]
        }
    } else {
        stylesheet_tokens(urls.drop_last(), chunks.drop_last()) + import_statement(urls.last())
            + chunks.last()
    }
}

/// A stylesheet made of `n` well-formed import statements, with any other
/// content around them that holds no `@import`, gives exactly their `n`
/// URLs, in the order in which they stand.
pub proof fn lemma_imports_in_order(urls: Seq<Seq<char>>, chunks: Seq<Seq<Tok>>)
    requires
        chunks.len() == urls.len() + 1,
        forall|j: int| 0 <= j < chunks.len() ==> other_content(#[trigger] chunks[j]),
    ensures
        scan_imports(stylesheet_tokens(urls, chunks), stylesheet_tokens(urls, chunks).len()) == (
        ImportScan { after_import: false, urls: urls, error: None }),
    decreases urls.len(),
{
    let toks = stylesheet_tokens(urls, chunks);
    if urls.len() == 0 {
        assert(other_content(chunks[0]));
        assert(urls =~= seq![]);
        lemma_other_content(toks, 0, toks.len(), urls);
    } else {
        reveal_strlit("url");
        reveal_strlit("import");
        let prev_urls = urls.drop_last();
        let prev_chunks = chunks.drop_last();
        assert forall|j: int| 0 <= j < prev_chunks.len() implies other_content(
            #[trigger] prev_chunks[j],
        ) by {
            assert(prev_chunks[j] == chunks[j]);
        }
        lemma_imports_in_order(prev_urls, prev_chunks);
        let prev = stylesheet_tokens(prev_urls, prev_chunks);
        let k = prev.len();
        assert(toks.subrange(0, k as int) =~= prev);
        lemma_scan_prefix(toks, prev, k);
        assert(toks[k as int] == Tok::AtKeyword("import"@));
        assert(toks[k + 1 as int] == Tok::Function("url"@, Ok(urls.last())));
        assert(toks[k + 2 as int] == Tok::Other);
        assert(eq_ignore_case("import"@, "import"@));
        assert(eq_ignore_case("url"@, "url"@));
        assert(scan_imports(toks, k + 1).after_import);
        assert(scan_imports(toks, k + 2).urls == prev_urls.push(urls.last()));
        assert(scan_imports(toks, k + 2).error is None);
        assert(prev_urls.push(urls.last()) =~= urls);
        assert(scan_imports(toks, k + 3) == (ImportScan { after_import: false, urls: urls, error: None }));
        let last = chunks.last();
        assert(other_content(chunks[chunks.len() - 1]));
        assert forall|i: int| k + 3 <= i < toks.len() implies !is_import_keyword(#[trigger] toks[i]) by {
            assert(toks[i] == last[i - k - 3]);
        }
        lemma_other_content(toks, k + 3, toks.len(), urls);
    }
}

/// Other content keeps the scan as it is after a complete statement.
proof fn lemma_other_content(toks: Seq<Tok>, from: nat, to: nat, urls: Seq<Seq<char>>)
    requires
        from <= to <= toks.len(),
        scan_imports(toks, from) == (ImportScan { after_import: false, urls: urls, error: None }),
        forall|i: int| from <= i < to ==> !is_import_keyword(#[trigger] toks[i]),
    ensures
        scan_imports(toks, to) == (ImportScan { after_import: false, urls: urls, error: None }),
    decreases to - from,
{
    if from < to {
        lemma_other_content(toks, from, (to - 1) as nat, urls);
        assert(!is_import_keyword(toks[to - 1]));
    }
}

/// The scan of a sequence that starts with `pre` agrees with the scan of
/// `pre` over its length.
proof fn lemma_scan_prefix(toks: Seq<Tok>, pre: Seq<Tok>, n: nat)
    requires
        n <= pre.len(),
        n <= toks.len(),
        forall|i: int| 0 <= i < n ==> toks[i] == pre[i],
    ensures
        scan_imports(toks, n) == scan_imports(pre, n),
    decreases n,
{
    if n > 0 {
        lemma_scan_prefix(toks, pre, (n - 1) as nat);
    }
}

} // verus!
