//! The MIME body model: a plain tree of parts, its decomposition into a
//! typed body tree, and the plaintext lookup over a decomposed body.

use vstd::prelude::*;

use crate::error::EmlParseError;
use crate::error::ErrV;
use crate::outside::clean_html;
use crate::outside::mime_tree;
use crate::outside::read_mime_tree;
use crate::outside::mail_err_reason;
use crate::outside::sanitized_html;
use crate::strutil::find_char;
use crate::strutil::clone_bytes;
use crate::strutil::clone_opt_string;
use crate::strutil::find_in_chars;
use crate::strutil::lemma_find_char_at;
use crate::strutil::lemma_find_char_props;
use crate::strutil::seg_eq;
use crate::strutil::seg_string;
use crate::strutil::str_chars;
use crate::strutil::str_eq;

verus! {

/// One MIME part as plain values: the declared content type, the decoded
/// text, the decoded raw bytes, the undecoded base64 text when the part
/// was base64-encoded, the content disposition, and the child parts.
pub struct MimePart {
    pub mimetype: String,
    pub text: String,
    pub raw: Vec<u8>,
    pub base64: Option<String>,
    pub disposition: String,
    pub filename: Option<String>,
    pub size: Option<String>,
    pub children: Vec<MimePart>,
}

/// A decomposed MIME body: decoded content, the raw and base64 octets kept
/// for lossless re-transmission, and three mutually exclusive child
/// relations, matching which multipart subtype produced the node.
#[derive(Debug)]
pub struct EmlBody {
    pub alternatives: Vec<EmlBody>,
    pub content: String,
    pub content_base64: Option<String>,
    pub content_encoded: Option<Vec<u8>>,
    pub disposition: String,
    pub extra: Vec<EmlBody>,
    pub filename: Option<String>,
    pub is_cleaned_html: bool,
    pub mimetype: String,
    pub signature: Option<Box<EmlBody>>,
    pub size: Option<String>,
}

impl Default for EmlBody {
    /// An empty leaf body: every text empty, every child relation empty.
    fn default() -> (r: Self)
        ensures
            r.alternatives@.len() == 0,
            r.content@ == Seq::<char>::empty(),
            r.content_base64 is None,
            r.content_encoded is None,
            r.disposition@ == Seq::<char>::empty(),
            r.extra@.len() == 0,
            r.filename is None,
            !r.is_cleaned_html,
            r.mimetype@ == Seq::<char>::empty(),
            r.signature is None,
            r.size is None,
    {
        EmlBody {
            alternatives: Vec::new(),
            content: String::new(),
            content_base64: None,
            content_encoded: None,
            disposition: String::new(),
            extra: Vec::new(),
            filename: None,
            is_cleaned_html: false,
            mimetype: String::new(),
            signature: None,
            size: None,
        }
    }
}

/// The length of the longest quote-free prefix of the text.
pub open spec fn no_quote_prefix_len(s: Seq<char>) -> int
    decreases s.len(),
{
    if s.len() == 0 {
        0
    } else if s[0] == '"' {
        0
    } else {
        1 + no_quote_prefix_len(s.drop_first())
    }
}

proof fn lemma_no_quote_prefix_props(s: Seq<char>)
    ensures
        0 <= no_quote_prefix_len(s) <= s.len(),
        forall|j: int| 0 <= j < no_quote_prefix_len(s) ==> s[j] != '"',
        no_quote_prefix_len(s) < s.len() ==> s[no_quote_prefix_len(s)] == '"',
    decreases s.len(),
{
    if s.len() > 0 && s[0] != '"' {
        let rest = s.drop_first();
        lemma_no_quote_prefix_props(rest);
        assert(forall|j: int| 0 <= j < rest.len() ==> rest[j] == s[j + 1]);
        assert forall|j: int| 0 <= j < no_quote_prefix_len(s) implies s[j] != '"' by {
            if j > 0 {
                assert(rest[j - 1] != '"');
            }
        }
    }
}

proof fn lemma_no_quote_prefix_at(s: Seq<char>, k: int)
    requires
        0 <= k <= s.len(),
        forall|j: int| 0 <= j < k ==> s[j] != '"',
        k < s.len() ==> s[k] == '"',
    ensures
        no_quote_prefix_len(s) == k,
    decreases s.len(),
{
    if s.len() > 0 && s[0] != '"' {
        let rest = s.drop_first();
        assert(forall|j: int| 0 <= j < rest.len() ==> rest[j] == s[j + 1]);
        lemma_no_quote_prefix_at(rest, k - 1);
    }
}

/// Whether the text starts with an anchor's `href="` followed by at least
/// one character of attribute value.
pub open spec fn href_at_start(s: Seq<char>) -> bool {
    s.len() >= 7 && s.take(6) == "href=\""@ && s[6] != '"'
}

/// The sanitized HTML with every `href="value` annotated by a matching
/// `title` attribute, scanning left to right.
pub open spec fn link_titled(s: Seq<char>) -> Seq<char>
    decreases s.len(),
    via link_titled_dec
{
    if s.len() == 0 {
        s
    } else if href_at_start(s) {
        let k = no_quote_prefix_len(s.skip(6));
        let run = s.subrange(6, 6 + k);
        "href=\""@ + run + "\" title=\""@ + run + "\""@ + link_titled(s.skip(6 + k))
    } else {
        seq![s[0]] + link_titled(s.drop_first())
    }
}

#[via_fn]
proof fn link_titled_dec(s: Seq<char>) {
    if s.len() != 0 && href_at_start(s) {
        lemma_no_quote_prefix_props(s.skip(6));
    }
}

/// Annotates every anchor's `href` with a `title` mirroring it, for
/// hover-preview in a presentation layer.
pub fn annotate_links(s: &str) -> (r: String)
    ensures
        r@ == link_titled(s@),
{
    let v = str_chars(s);
    let mut out = String::new();
    let mut i: usize = 0;
    proof {
        assert(s@.skip(0) =~= s@);
        assert(out@ + link_titled(s@) =~= link_titled(s@));
    }
    while i < v.len()
        invariant
            i <= v.len(),
            v@ == s@,
            out@ + link_titled(s@.skip(i as int)) =~= link_titled(s@),
        decreases v.len() - i,
    {
        let ghost rem = s@.skip(i as int);
        let is_href = v.len() - i > 6 && seg_eq(&v, i, i + 6, "href=\"") && v[i + 6] != '"';
        proof {
            assert(rem.len() == v@.len() - i);
            if v@.len() - i > 6 {
                assert(rem.take(6) =~= v@.subrange(i as int, i as int + 6));
                assert(rem[6] == v@[i as int + 6]);
            }
            assert(is_href == href_at_start(rem));
        }
        if is_href {
            let mut j: usize = i + 6;
            while j < v.len() && v[j] != '"'
                invariant
                    i + 6 <= j <= v.len(),
                    forall|m: int| i + 6 <= m < j ==> v@[m] != '"',
                decreases v.len() - j,
            {
                j = j + 1;
            }
            let ghost k = (j - (i + 6)) as int;
            proof {
                let tail = rem.skip(6);
                assert(tail =~= s@.skip(i + 6 as int));
                assert(forall|m: int| 0 <= m < k ==> tail[m] == v@[i + 6 + m]);
                if k < tail.len() {
                    assert(tail[k] == v@[j as int]);
                }
                lemma_no_quote_prefix_at(tail, k);
                assert(rem.subrange(6, 6 + k) =~= v@.subrange(i + 6 as int, j as int));
            }
            let run = seg_string(&v, i + 6, j);
            out.append("href=\"");
            out.append(run.as_str());
            out.append("\" title=\"");
            out.append(run.as_str());
            out.append("\"");
            proof {
                assert(rem.skip(6 + k) =~= s@.skip(j as int));
                assert(link_titled(rem) == "href=\""@ + run@ + "\" title=\""@ + run@ + "\""@
                    + link_titled(s@.skip(j as int)));
                assert(out@ + link_titled(s@.skip(j as int)) =~= link_titled(s@));
            }
            i = j;
        } else {
            out.push(v[i]);
            proof {
                assert(rem.drop_first() =~= s@.skip(i + 1 as int));
                assert(rem[0] == v@[i as int]);
                assert(link_titled(rem) == seq![v@[i as int]] + link_titled(s@.skip(i + 1 as int)));
                assert(out@ + link_titled(s@.skip(i + 1 as int)) =~= link_titled(s@));
            }
            i = i + 1;
        }
    }
    proof {
        assert(s@.skip(v@.len() as int) =~= Seq::<char>::empty());
        assert(link_titled(Seq::<char>::empty()).len() == 0);
        assert(out@ =~= link_titled(s@));
    }
    out
}

/// How one part's fields must appear in a decomposed body node, leaving the
/// three child relations aside.
pub open spec fn leaf_match(p: MimePart, b: EmlBody) -> bool {
    &&& b.mimetype@ == p.mimetype@
    &&& b.content_base64.deep_view() == p.base64.deep_view()
    &&& b.content_encoded matches Some(enc) && enc@ == p.raw@
    &&& b.disposition@ == p.disposition@
    &&& b.filename.deep_view() == p.filename.deep_view()
    &&& b.size.deep_view() == p.size.deep_view()
    &&& if p.mimetype@ == "text/html"@ {
        b.content@ == link_titled(sanitized_html(p.text@)) && b.is_cleaned_html
    } else {
        b.content@ == p.text@ && !b.is_cleaned_html
    }
}

/// Whether `b` is the decomposition of `p`. The three flags mark child
/// relations of `b` that an enclosing multipart step will overwrite and
/// which are therefore left unconstrained here: `fa` frees `alternatives`,
/// `fe` frees `extra`, `fs` frees `signature`.
pub open spec fn decomp(p: MimePart, b: EmlBody, fa: bool, fe: bool, fs: bool) -> bool
    decreases p,
{
    match find_char(p.mimetype@, '/') {
        None => false,
        Some(i) => {
            if p.mimetype@.take(i) != "multipart"@ {
                &&& leaf_match(p, b)
                &&& (fa || b.alternatives@.len() == 0)
                &&& (fe || b.extra@.len() == 0)
                &&& (fs || b.signature is None)
            } else {
                let sub = p.mimetype@.skip(i + 1);
                if sub == "alternative"@ {
                    &&& p.children@.len() >= 1
                    &&& decomp(p.children@[0], b, true, fe, fs)
                    &&& (fa || (b.alternatives@.len() == p.children@.len() - 1 && forall|m: int|
                        0 <= m < b.alternatives@.len() ==> decomp(
                            p.children@[m + 1],
                            #[trigger] b.alternatives@[m],
                            false,
                            false,
                            false,
                        )))
                } else if sub == "mixed"@ {
                    &&& p.children@.len() >= 1
                    &&& decomp(p.children@[0], b, fa, true, fs)
                    &&& (fe || (b.extra@.len() == p.children@.len() - 1 && forall|m: int|
                        0 <= m < b.extra@.len() ==> decomp(
                            p.children@[m + 1],
                            #[trigger] b.extra@[m],
                            false,
                            false,
                            false,
                        )))
                } else if sub == "signed"@ {
                    &&& p.children@.len() == 2
                    &&& decomp(p.children@[0], b, fa, fe, true)
                    &&& (fs || (b.signature matches Some(sg) && decomp(
                        p.children@[1],
                        *sg,
                        false,
                        false,
                        false,
                    )))
                } else {
                    false
                }
            }
        },
    }
}

/// Whether `b` is exactly the decomposition of `p`.
pub open spec fn is_decomposition(p: MimePart, b: EmlBody) -> bool {
    decomp(p, b, false, false, false)
}

/// Whether decomposition of `p` succeeds.
pub open spec fn decomposable(p: MimePart) -> bool
    decreases p,
{
    match find_char(p.mimetype@, '/') {
        None => false,
        Some(i) => {
            if p.mimetype@.take(i) != "multipart"@ {
                true
            } else {
                let sub = p.mimetype@.skip(i + 1);
                if sub == "alternative"@ || sub == "mixed"@ {
                    p.children@.len() >= 1 && all_decomposable(p.children@)
                } else if sub == "signed"@ {
                    p.children@.len() == 2 && all_decomposable(p.children@)
                } else {
                    false
                }
            }
        },
    }
}

pub open spec fn all_decomposable(s: Seq<MimePart>) -> bool
    decreases s,
{
    if s.len() == 0 {
        true
    } else {
        decomposable(s[0]) && all_decomposable(s.drop_first())
    }
}

/// The reason decomposition of `p` reports when it fails: the first
/// failure found, walking the first child before its siblings.
pub open spec fn decompose_err_reason(p: MimePart) -> Seq<char>
    decreases p,
{
    match find_char(p.mimetype@, '/') {
        None => "Failed to parse mimetype: "@ + p.mimetype@,
        Some(i) => {
            if p.mimetype@.take(i) != "multipart"@ {
                Seq::empty()
            } else {
                let sub = p.mimetype@.skip(i + 1);
                if sub == "alternative"@ || sub == "mixed"@ {
                    if p.children@.len() == 0 {
                        "Multipart part with no children"@
                    } else {
                        first_child_err(p.children@)
                    }
                } else if sub == "signed"@ {
                    if p.children@.len() == 0 {
                        "Multipart part with no children"@
                    } else if !decomposable(p.children@[0]) {
                        decompose_err_reason(p.children@[0])
                    } else if p.children@.len() != 2 {
                        "Expected exactly one signature for signed part"@
                    } else {
                        decompose_err_reason(p.children@[1])
                    }
                } else {
                    "Not implemented: "@ + sub
                }
            }
        },
    }
}

pub open spec fn first_child_err(s: Seq<MimePart>) -> Seq<char>
    decreases s,
{
    if s.len() == 0 {
        Seq::empty()
    } else if !decomposable(s[0]) {
        decompose_err_reason(s[0])
    } else {
        first_child_err(s.drop_first())
    }
}

proof fn lemma_all_decomposable(s: Seq<MimePart>)
    ensures
        all_decomposable(s) <==> (forall|i: int| 0 <= i < s.len() ==> decomposable(#[trigger] s[i])),
    decreases s,
{
    if s.len() > 0 {
        let rest = s.drop_first();
        lemma_all_decomposable(rest);
        assert(forall|j: int| 0 <= j < rest.len() ==> rest[j] == s[j + 1]);
        if decomposable(s[0]) && all_decomposable(rest) {
            assert forall|i: int| 0 <= i < s.len() implies decomposable(#[trigger] s[i]) by {
                if i > 0 {
                    assert(decomposable(rest[i - 1]));
                }
            }
        }
    }
}

proof fn lemma_first_child_err(s: Seq<MimePart>, i: int)
    requires
        0 <= i < s.len(),
        forall|j: int| 0 <= j < i ==> decomposable(#[trigger] s[j]),
        !decomposable(s[i]),
    ensures
        first_child_err(s) == decompose_err_reason(s[i]),
    decreases i,
{
    if i > 0 {
        let rest = s.drop_first();
        assert(forall|j: int| 0 <= j < rest.len() ==> rest[j] == s[j + 1]);
        lemma_first_child_err(rest, i - 1);
    }
}

/// Decomposition is insensitive to the freed child relations: a body that
/// agrees with a decomposition on every field an enclosing step does not
/// overwrite is itself accepted, under freer flags.
proof fn lemma_decomp_relax(
    p: MimePart,
    b: EmlBody,
    b2: EmlBody,
    fa: bool,
    fe: bool,
    fs: bool,
    fa2: bool,
    fe2: bool,
    fs2: bool,
)
    requires
        decomp(p, b, fa, fe, fs),
        fa ==> fa2,
        fe ==> fe2,
        fs ==> fs2,
        b2.content == b.content,
        b2.content_base64 == b.content_base64,
        b2.content_encoded == b.content_encoded,
        b2.disposition == b.disposition,
        b2.filename == b.filename,
        b2.is_cleaned_html == b.is_cleaned_html,
        b2.mimetype == b.mimetype,
        b2.size == b.size,
        !fa2 ==> b2.alternatives == b.alternatives,
        !fe2 ==> b2.extra == b.extra,
        !fs2 ==> b2.signature == b.signature,
    ensures
        decomp(p, b2, fa2, fe2, fs2),
    decreases p,
{
    match find_char(p.mimetype@, '/') {
        None => {},
        Some(i) => {
            if p.mimetype@.take(i) != "multipart"@ {
            } else {
                let sub = p.mimetype@.skip(i + 1);
                if sub == "alternative"@ {
                    lemma_decomp_relax(p.children@[0], b, b2, true, fe, fs, true, fe2, fs2);
                } else if sub == "mixed"@ {
                    lemma_decomp_relax(p.children@[0], b, b2, fa, true, fs, fa2, true, fs2);
                } else if sub == "signed"@ {
                    lemma_decomp_relax(p.children@[0], b, b2, fa, fe, true, fa2, fe2, true);
                }
            }
        },
    }
}

/// Decomposes one MIME part into a typed body tree: a non-multipart part is
/// a leaf, sanitized when it is HTML; `multipart/alternative` hangs the
/// remaining children off the first as `alternatives`; `multipart/mixed`
/// as `extra`; `multipart/signed` demands exactly one sibling, the
/// detached signature. Any other subtype, a content type without `/`, or a
/// multipart with no children at all is refused, as is any failing child.
pub fn decompose(p: &MimePart) -> (r: Result<EmlBody, EmlParseError>)
    ensures
        (r is Ok) == decomposable(*p),
        r matches Ok(b) ==> is_decomposition(*p, b),
        r matches Err(e) ==> e@ == (ErrV {
            id: None,
            reason: decompose_err_reason(*p),
            within: None,
        }),
    decreases *p,
{
    let chars = str_chars(p.mimetype.as_str());
    let slash = find_in_chars(&chars, '/');
    let i = match slash {
        None => {
            let mut reason = String::from_str("Failed to parse mimetype: ");
            reason.append(p.mimetype.as_str());
            return Err(EmlParseError::new().reason(reason.as_str()));
        },
        Some(i) => i,
    };
    proof {
        lemma_find_char_props(p.mimetype@, '/');
        assert(i < chars@.len());
        assert(p.mimetype@.take(i as int) =~= chars@.subrange(0, i as int));
        assert(p.mimetype@.skip(i as int + 1) =~= chars@.subrange(
            i as int + 1,
            chars@.len() as int,
        ));
    }
    let n = chars.len();
    assert(i < n);
    if !seg_eq(&chars, 0, i, "multipart") {
        let is_html = str_eq(p.mimetype.as_str(), "text/html");
        let content = if is_html {
            let cleaned = clean_html(p.text.as_str());
            annotate_links(cleaned.as_str())
        } else {
            p.text.clone()
        };
        let b = EmlBody {
            alternatives: Vec::new(),
            content,
            content_base64: clone_opt_string(&p.base64),
            content_encoded: Some(clone_bytes(&p.raw)),
            disposition: p.disposition.clone(),
            extra: Vec::new(),
            filename: clone_opt_string(&p.filename),
            is_cleaned_html: is_html,
            mimetype: p.mimetype.clone(),
            signature: None,
            size: clone_opt_string(&p.size),
        };
        proof {
            assert(leaf_match(*p, b));
            assert(decomp(*p, b, false, false, false));
        }
        return Ok(b);
    }
    let is_alt = seg_eq(&chars, i + 1, n, "alternative");
    let is_mixed = seg_eq(&chars, i + 1, n, "mixed");
    let is_signed = seg_eq(&chars, i + 1, n, "signed");
    proof {
        reveal_strlit("alternative");
        reveal_strlit("mixed");
        reveal_strlit("signed");
        assert("alternative"@.len() == 11 && "mixed"@.len() == 5 && "signed"@.len() == 6);
    }
    if !is_alt && !is_mixed && !is_signed {
        let sub = seg_string(&chars, i + 1, n);
        let mut reason = String::from_str("Not implemented: ");
        reason.append(sub.as_str());
        return Err(EmlParseError::new().reason(reason.as_str()));
    }
    if p.children.len() == 0 {
        return Err(EmlParseError::new().reason("Multipart part with no children"));
    }
    let mut first = match decompose(&p.children[0]) {
        Ok(b) => b,
        Err(e) => {
            proof {
                if is_alt || is_mixed {
                    lemma_first_child_err(p.children@, 0);
                }
                lemma_all_decomposable(p.children@);
            }
            return Err(e);
        },
    };
    let ghost first0 = first;
    if is_signed {
        if p.children.len() != 2 {
            return Err(
                EmlParseError::new().reason("Expected exactly one signature for signed part"),
            );
        }
        let sig = match decompose(&p.children[1]) {
            Ok(b) => b,
            Err(e) => {
                proof {
                    lemma_all_decomposable(p.children@);
                }
                return Err(e);
            },
        };
        first.signature = Some(Box::new(sig));
        proof {
            lemma_all_decomposable(p.children@);
            assert forall|j: int| 0 <= j < p.children@.len() implies decomposable(
                #[trigger] p.children@[j],
            ) by {
                if j == 0 {
                } else {
                    assert(j == 1);
                }
            }
            lemma_decomp_relax(
                p.children@[0],
                first0,
                first,
                false,
                false,
                false,
                false,
                false,
                true,
            );
        }
        return Ok(first);
    }
    let mut rest: Vec<EmlBody> = Vec::new();
    let mut idx: usize = 1;
    while idx < p.children.len()
        invariant
            1 <= idx <= p.children@.len(),
            find_char(p.mimetype@, '/') == Some(i as int),
            p.mimetype@.take(i as int) == "multipart"@,
            is_alt == (p.mimetype@.skip(i as int + 1) == "alternative"@),
            is_mixed == (p.mimetype@.skip(i as int + 1) == "mixed"@),
            is_alt || is_mixed,
            rest@.len() == idx - 1,
            forall|m: int| 0 <= m < idx - 1 ==> decomp(
                p.children@[m + 1],
                #[trigger] rest@[m],
                false,
                false,
                false,
            ),
            forall|j: int| 0 <= j < idx ==> decomposable(#[trigger] p.children@[j]),
        decreases p.children@.len() - idx,
    {
        match decompose(&p.children[idx]) {
            Ok(c) => {
                rest.push(c);
            },
            Err(e) => {
                proof {
                    if is_alt || is_mixed {
                        lemma_first_child_err(p.children@, idx as int);
                    }
                    lemma_all_decomposable(p.children@);
                }
                return Err(e);
            },
        }
        idx = idx + 1;
    }
    proof {
        lemma_all_decomposable(p.children@);
    }
    if is_alt {
        first.alternatives = rest;
        proof {
            lemma_decomp_relax(
                p.children@[0],
                first0,
                first,
                false,
                false,
                false,
                true,
                false,
                false,
            );
        }
        Ok(first)
    } else {
        first.extra = rest;
        proof {
            lemma_decomp_relax(
                p.children@[0],
                first0,
                first,
                false,
                false,
                false,
                false,
                true,
                false,
            );
        }
        Ok(first)
    }
}

/// The decoded content a decomposition carries on its root node: the
/// first-child chain down to a leaf.
pub open spec fn decomposed_content(p: MimePart) -> Seq<char>
    decreases p,
{
    match find_char(p.mimetype@, '/') {
        None => Seq::empty(),
        Some(i) => {
            if p.mimetype@.take(i) != "multipart"@ {
                if p.mimetype@ == "text/html"@ {
                    link_titled(sanitized_html(p.text@))
                } else {
                    p.text@
                }
            } else if p.children@.len() >= 1 {
                decomposed_content(p.children@[0])
            } else {
                Seq::empty()
            }
        },
    }
}

proof fn lemma_decomp_content(p: MimePart, b: EmlBody, fa: bool, fe: bool, fs: bool)
    requires
        decomp(p, b, fa, fe, fs),
    ensures
        b.content@ == decomposed_content(p),
    decreases p,
{
    match find_char(p.mimetype@, '/') {
        None => {},
        Some(i) => {
            if p.mimetype@.take(i) != "multipart"@ {
            } else {
                let sub = p.mimetype@.skip(i + 1);
                if sub == "alternative"@ {
                    lemma_decomp_content(p.children@[0], b, true, fe, fs);
                } else if sub == "mixed"@ {
                    lemma_decomp_content(p.children@[0], b, fa, true, fs);
                } else if sub == "signed"@ {
                    lemma_decomp_content(p.children@[0], b, fa, fe, true);
                }
            }
        },
    }
}

proof fn lemma_multipart_mimetype(mt: Seq<char>, sub: Seq<char>)
    requires
        mt.len() == 10 + sub.len(),
        mt[9] == '/',
        forall|j: int| 0 <= j < 9 ==> mt[j] == ("multipart"@)[j],
        forall|j: int| 0 <= j < sub.len() ==> mt[10 + j] == sub[j],
    ensures
        find_char(mt, '/') == Some(9int),
        mt.take(9) == "multipart"@,
        mt.skip(10) == sub,
{
    reveal_strlit("multipart");
    let pre = "multipart"@;
    assert(pre.len() == 9);
    assert forall|j: int| 0 <= j < 9 implies mt[j] != '/' by {
        if j == 0 {
            assert(pre[0] == 'm');
        } else if j == 1 {
            assert(pre[1] == 'u');
        } else if j == 2 {
            assert(pre[2] == 'l');
        } else if j == 3 {
            assert(pre[3] == 't');
        } else if j == 4 {
            assert(pre[4] == 'i');
        } else if j == 5 {
            assert(pre[5] == 'p');
        } else if j == 6 {
            assert(pre[6] == 'a');
        } else if j == 7 {
            assert(pre[7] == 'r');
        } else {
            assert(pre[8] == 't');
        }
    }
    lemma_find_char_at(mt, '/', 9);
    assert(mt.take(9) =~= pre);
    assert(mt.skip(10) =~= sub);
}

proof fn lemma_split_alternative()
    ensures
        find_char("multipart/alternative"@, '/') == Some(9int),
        "multipart/alternative"@.take(9) == "multipart"@,
        "multipart/alternative"@.skip(10) == "alternative"@,
{
    reveal_strlit("multipart/alternative");
    reveal_strlit("multipart");
    reveal_strlit("alternative");
    let mt = "multipart/alternative"@;
    let pre = "multipart"@;
    let sub = "alternative"@;
    assert(mt.len() == 21 && pre.len() == 9 && sub.len() == 11);
    assert forall|j: int| 0 <= j < 9 implies mt[j] == pre[j] by {
        if j == 0 {
            assert(mt[0] == 'm' && pre[0] == 'm');
        } else if j == 1 {
            assert(mt[1] == 'u' && pre[1] == 'u');
        } else if j == 2 {
            assert(mt[2] == 'l' && pre[2] == 'l');
        } else if j == 3 {
            assert(mt[3] == 't' && pre[3] == 't');
        } else if j == 4 {
            assert(mt[4] == 'i' && pre[4] == 'i');
        } else if j == 5 {
            assert(mt[5] == 'p' && pre[5] == 'p');
        } else if j == 6 {
            assert(mt[6] == 'a' && pre[6] == 'a');
        } else if j == 7 {
            assert(mt[7] == 'r' && pre[7] == 'r');
        } else {
            assert(mt[8] == 't' && pre[8] == 't');
        }
    }
    assert forall|j: int| 0 <= j < 11 implies mt[10 + j] == sub[j] by {
        if j == 0 {
            assert(mt[10] == 'a' && sub[0] == 'a');
        } else if j == 1 {
            assert(mt[11] == 'l' && sub[1] == 'l');
        } else if j == 2 {
            assert(mt[12] == 't' && sub[2] == 't');
        } else if j == 3 {
            assert(mt[13] == 'e' && sub[3] == 'e');
        } else if j == 4 {
            assert(mt[14] == 'r' && sub[4] == 'r');
        } else if j == 5 {
            assert(mt[15] == 'n' && sub[5] == 'n');
        } else if j == 6 {
            assert(mt[16] == 'a' && sub[6] == 'a');
        } else if j == 7 {
            assert(mt[17] == 't' && sub[7] == 't');
        } else if j == 8 {
            assert(mt[18] == 'i' && sub[8] == 'i');
        } else if j == 9 {
            assert(mt[19] == 'v' && sub[9] == 'v');
        } else {
            assert(mt[20] == 'e' && sub[10] == 'e');
        }
    }
    assert(mt[9] == '/');
    lemma_multipart_mimetype(mt, sub);
}

proof fn lemma_split_signed()
    ensures
        find_char("multipart/signed"@, '/') == Some(9int),
        "multipart/signed"@.take(9) == "multipart"@,
        "multipart/signed"@.skip(10) == "signed"@,
{
    reveal_strlit("multipart/signed");
    reveal_strlit("multipart");
    reveal_strlit("signed");
    let mt = "multipart/signed"@;
    let pre = "multipart"@;
    let sub = "signed"@;
    assert(mt.len() == 16 && pre.len() == 9 && sub.len() == 6);
    assert forall|j: int| 0 <= j < 9 implies mt[j] == pre[j] by {
        if j == 0 {
            assert(mt[0] == 'm' && pre[0] == 'm');
        } else if j == 1 {
            assert(mt[1] == 'u' && pre[1] == 'u');
        } else if j == 2 {
            assert(mt[2] == 'l' && pre[2] == 'l');
        } else if j == 3 {
            assert(mt[3] == 't' && pre[3] == 't');
        } else if j == 4 {
            assert(mt[4] == 'i' && pre[4] == 'i');
        } else if j == 5 {
            assert(mt[5] == 'p' && pre[5] == 'p');
        } else if j == 6 {
            assert(mt[6] == 'a' && pre[6] == 'a');
        } else if j == 7 {
            assert(mt[7] == 'r' && pre[7] == 'r');
        } else {
            assert(mt[8] == 't' && pre[8] == 't');
        }
    }
    assert forall|j: int| 0 <= j < 6 implies mt[10 + j] == sub[j] by {
        if j == 0 {
            assert(mt[10] == 's' && sub[0] == 's');
        } else if j == 1 {
            assert(mt[11] == 'i' && sub[1] == 'i');
        } else if j == 2 {
            assert(mt[12] == 'g' && sub[2] == 'g');
        } else if j == 3 {
            assert(mt[13] == 'n' && sub[3] == 'n');
        } else if j == 4 {
            assert(mt[14] == 'e' && sub[4] == 'e');
        } else {
            assert(mt[15] == 'd' && sub[5] == 'd');
        }
    }
    assert(mt[9] == '/');
    lemma_multipart_mimetype(mt, sub);
}

/// Law: a `multipart/alternative` part decomposes exactly when it has at
/// least one child and every child decomposes.
pub proof fn lemma_alternative_decomposable(p: MimePart)
    requires
        p.mimetype@ == "multipart/alternative"@,
    ensures
        decomposable(p) <==> (p.children@.len() >= 1 && forall|j: int|
            0 <= j < p.children@.len() ==> decomposable(#[trigger] p.children@[j])),
{
    lemma_split_alternative();
    reveal_strlit("alternative");
    reveal_strlit("mixed");
    reveal_strlit("signed");
    assert("alternative"@.len() == 11 && "mixed"@.len() == 5 && "signed"@.len() == 6);
    lemma_all_decomposable(p.children@);
}

/// Law: decomposing a well-formed `multipart/alternative` part with N
/// children yields a root that keeps the first child's decoded content and
/// hangs the remaining N-1 children off it, in order, as `alternatives`.
pub proof fn lemma_alternative_decomposition(p: MimePart, b: EmlBody)
    requires
        p.mimetype@ == "multipart/alternative"@,
        is_decomposition(p, b),
    ensures
        p.children@.len() >= 1,
        b.alternatives@.len() == p.children@.len() - 1,
        b.content@ == decomposed_content(p.children@[0]),
        forall|m: int| 0 <= m < b.alternatives@.len() ==> is_decomposition(
            p.children@[m + 1],
            #[trigger] b.alternatives@[m],
        ),
{
    lemma_split_alternative();
    reveal_strlit("alternative");
    reveal_strlit("mixed");
    reveal_strlit("signed");
    assert("alternative"@.len() == 11 && "mixed"@.len() == 5 && "signed"@.len() == 6);
    assert(decomp(p.children@[0], b, true, false, false));
    lemma_decomp_content(p.children@[0], b, true, false, false);
}

/// Law: a `multipart/signed` part decomposes exactly when it has exactly
/// two children, the content and one detached signature, that both
/// decompose; with any other number of children it is refused.
pub proof fn lemma_signed_decomposable(p: MimePart)
    requires
        p.mimetype@ == "multipart/signed"@,
    ensures
        decomposable(p) <==> (p.children@.len() == 2 && forall|j: int|
            0 <= j < p.children@.len() ==> decomposable(#[trigger] p.children@[j])),
{
    lemma_split_signed();
    reveal_strlit("alternative");
    reveal_strlit("mixed");
    reveal_strlit("signed");
    assert("alternative"@.len() == 11 && "mixed"@.len() == 5 && "signed"@.len() == 6);
    lemma_all_decomposable(p.children@);
}

/// Law: decomposing a well-formed `multipart/signed` part yields a root
/// that keeps the first child's decoded content and carries the second
/// child's decomposition as its `signature`.
pub proof fn lemma_signed_decomposition(p: MimePart, b: EmlBody)
    requires
        p.mimetype@ == "multipart/signed"@,
        is_decomposition(p, b),
    ensures
        p.children@.len() == 2,
        b.signature is Some,
        b.signature matches Some(sg) ==> is_decomposition(p.children@[1], *sg),
        b.content@ == decomposed_content(p.children@[0]),
{
    lemma_split_signed();
    reveal_strlit("alternative");
    reveal_strlit("mixed");
    reveal_strlit("signed");
    assert("alternative"@.len() == 11 && "mixed"@.len() == 5 && "signed"@.len() == 6);
    assert(decomp(p.children@[0], b, false, false, true));
    lemma_decomp_content(p.children@[0], b, false, false, true);
}

/// Parses raw message bytes and decomposes the resulting MIME tree:
/// succeeds exactly when the bytes parse and the parsed tree decomposes,
/// and then returns that tree's decomposition.
pub fn parse_eml_body(raw: &[u8]) -> (r: Result<EmlBody, EmlParseError>)
    ensures
        (r is Ok) == (mime_tree(raw@) matches Some(t) && decomposable(t)),
        r matches Ok(b) ==> is_decomposition(mime_tree(raw@)->Some_0, b),
        (mime_tree(raw@) is Some && !decomposable(mime_tree(raw@)->Some_0)) ==> (r matches Err(e)
            && e@ == (ErrV {
            id: None,
            reason: decompose_err_reason(mime_tree(raw@)->Some_0),
            within: None,
        })),
{
    let tree = match read_mime_tree(raw) {
        Ok(t) => t,
        Err(e) => {
            let reason = mail_err_reason(&e);
            return Err(EmlParseError::new().reason(reason.as_str()));
        },
    };
    decompose(&tree)
}

/// The first `text/plain` entry among the candidates, scanned in order.
pub open spec fn first_plain(cands: Seq<EmlBody>) -> Option<Seq<char>>
    decreases cands.len(),
{
    if cands.len() == 0 {
        None
    } else if cands[0].mimetype@ == "text/plain"@ {
        Some(cands[0].content@)
    } else {
        first_plain(cands.drop_first())
    }
}

/// The plaintext rendering of a body: the content of whichever of the
/// alternatives, or failing them the root itself, is `text/plain`.
pub open spec fn plaintext_of(b: EmlBody) -> Option<Seq<char>> {
    first_plain(b.alternatives@.push(b))
}

proof fn lemma_first_plain_skip(cands: Seq<EmlBody>, i: int)
    requires
        0 <= i <= cands.len(),
        forall|j: int| 0 <= j < i ==> cands[j].mimetype@ != "text/plain"@,
    ensures
        first_plain(cands) == first_plain(cands.skip(i)),
    decreases i,
{
    if i == 0 {
        assert(cands.skip(0) =~= cands);
    } else {
        lemma_first_plain_skip(cands, i - 1);
        let rest = cands.skip(i - 1);
        assert(rest.len() == cands.len() - i + 1);
        assert(rest[0] == cands[i - 1]);
        assert(rest.drop_first() =~= cands.skip(i));
        assert(first_plain(rest) == first_plain(cands.skip(i)));
    }
}

/// Looks up the plaintext rendering of a decomposed body: the first
/// `text/plain` entry among the alternatives, then the root itself.
pub fn plaintext(eml: &EmlBody) -> (r: Option<String>)
    ensures
        (r is Some) == (plaintext_of(*eml) is Some),
        r matches Some(s) ==> Some(s@) == plaintext_of(*eml),
{
    let ghost cands = eml.alternatives@.push(*eml);
    let mut i: usize = 0;
    while i < eml.alternatives.len()
        invariant
            i <= eml.alternatives@.len(),
            cands == eml.alternatives@.push(*eml),
            forall|j: int| 0 <= j < i ==> cands[j].mimetype@ != "text/plain"@,
        decreases eml.alternatives@.len() - i,
    {
        if str_eq(eml.alternatives[i].mimetype.as_str(), "text/plain") {
            proof {
                lemma_first_plain_skip(cands, i as int);
                assert(cands.skip(i as int)[0] == cands[i as int]);
            }
            return Some(eml.alternatives[i].content.clone());
        }
        i = i + 1;
    }
    proof {
        lemma_first_plain_skip(cands, eml.alternatives@.len() as int);
        assert(cands.skip(eml.alternatives@.len() as int) =~= seq![*eml]);
        assert(seq![*eml].drop_first() =~= Seq::<EmlBody>::empty());
        assert(seq![*eml][0] == *eml);
        assert(first_plain(Seq::<EmlBody>::empty()) is None);
        assert(first_plain(seq![*eml]) == (if eml.mimetype@ == "text/plain"@ {
            Some(eml.content@)
        } else {
            first_plain(Seq::<EmlBody>::empty())
        }));
    }
    if str_eq(eml.mimetype.as_str(), "text/plain") {
        Some(eml.content.clone())
    } else {
        None
    }
}

} // verus!
