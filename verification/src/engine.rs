use vstd::prelude::*;
use crate::text::pairs_view;

verus! {

/// mustache's compiled template type, declared so that compiled templates
/// can be held and passed around; its inside stays opaque.
#[verifier::external_type_specification]
#[verifier::external_body]
pub struct ExTemplate(mustache::Template);

/// True when the template text holds neither a partial tag nor a
/// set-delimiter tag: the engine recognises those only as `>` or `=`
/// directly after an opening `{{`. A partial tag makes the engine read a
/// further file at compile time, so only marker-free text compiles and
/// renders as a pure function of the text itself.
pub open spec fn marker_free(s: Seq<char>) -> bool {
    forall|i: int|
        0 <= i && i + 2 < s.len() ==> !(#[trigger] s[i] == '{' && s[i + 1] == '{' && (s[i + 2]
            == '>' || s[i + 2] == '='))
}

/// Decides `marker_free` for a template text.
pub fn scan_marker_free(s: &str) -> (r: bool)
    ensures
        r == marker_free(s@),
{
    let n = s.unicode_len();
    if n < 3 {
        return true;
    }
    let mut i: usize = 0;
    while i + 2 < n
        invariant
            n == s@.len(),
            0 <= i,
            i + 2 <= n,
            forall|j: int|
                0 <= j && j < i ==> !(#[trigger] s@[j] == '{' && s@[j + 1] == '{' && (s@[j + 2]
                    == '>' || s@[j + 2] == '=')),
        decreases n - i,
    {
        if s.get_char(i) == '{' && s.get_char(i + 1) == '{' {
            let c = s.get_char(i + 2);
            if c == '>' || c == '=' {
                return false;
            }
        }
        i = i + 1;
    }
    true
}

/// True of exactly the characters that Rust's `char::is_whitespace`
/// reports, the class the engine's `str::trim` strips around tag names.
pub open spec fn is_wspace(c: char) -> bool {
    ||| c == '\u{0009}'
    ||| c == '\u{000A}'
    ||| c == '\u{000B}'
    ||| c == '\u{000C}'
    ||| c == '\u{000D}'
    ||| c == '\u{0020}'
    ||| c == '\u{0085}'
    ||| c == '\u{00A0}'
    ||| c == '\u{1680}'
    ||| c == '\u{2000}'
    ||| c == '\u{2001}'
    ||| c == '\u{2002}'
    ||| c == '\u{2003}'
    ||| c == '\u{2004}'
    ||| c == '\u{2005}'
    ||| c == '\u{2006}'
    ||| c == '\u{2007}'
    ||| c == '\u{2008}'
    ||| c == '\u{2009}'
    ||| c == '\u{200A}'
    ||| c == '\u{2028}'
    ||| c == '\u{2029}'
    ||| c == '\u{202F}'
    ||| c == '\u{205F}'
    ||| c == '\u{3000}'
}

/// Decides `is_wspace` for one character.
pub fn wspace(c: char) -> (r: bool)
    ensures
        r == is_wspace(c),
{
    c == '\u{0009}' || c == '\u{000A}' || c == '\u{000B}' || c == '\u{000C}' || c == '\u{000D}'
        || c == '\u{0020}' || c == '\u{0085}' || c == '\u{00A0}' || c == '\u{1680}'
        || c == '\u{2000}' || c == '\u{2001}' || c == '\u{2002}' || c == '\u{2003}'
        || c == '\u{2004}' || c == '\u{2005}' || c == '\u{2006}' || c == '\u{2007}'
        || c == '\u{2008}' || c == '\u{2009}' || c == '\u{200A}' || c == '\u{2028}'
        || c == '\u{2029}' || c == '\u{202F}' || c == '\u{205F}' || c == '\u{3000}'
}

/// True when `p` witnesses that `s[a..b)` trims to the single name `.`:
/// one dot at `p`, whitespace everywhere else.
pub open spec fn dot_witness(s: Seq<char>, a: int, b: int, p: int) -> bool {
    &&& a <= p < b <= s.len()
    &&& s[p] == '.'
    &&& forall|q: int| a <= q < b && q != p ==> is_wspace(#[trigger] s[q])
}

/// True when the characters of `s[a..b)` trim to exactly the name `.`.
pub open spec fn trims_to_dot(s: Seq<char>, a: int, b: int) -> bool {
    exists|p: int| #[trigger] dot_witness(s, a, b, p)
}

/// True when position `k` holds the first `}` at or after `from`.
pub open spec fn first_close_at(s: Seq<char>, from: int, k: int) -> bool {
    &&& from <= k < s.len()
    &&& s[k] == '}'
    &&& forall|m: int| from <= m < k ==> s[m] != '}'
}

/// The first `}` position is unique.
pub proof fn lemma_first_close_unique(s: Seq<char>, from: int, k1: int, k2: int)
    requires
        first_close_at(s, from, k1),
        first_close_at(s, from, k2),
    ensures
        k1 == k2,
{
}

/// True when `k` closes a triple tag opened at `i` whose name trims to
/// `.`: the text reads `{{{`, then whitespace and one dot, then `}}}`.
pub open spec fn curly_dot_close(s: Seq<char>, i: int, k: int) -> bool {
    &&& first_close_at(s, i + 3, k)
    &&& k + 2 < s.len()
    &&& s[k + 1] == '}'
    &&& s[k + 2] == '}'
    &&& trims_to_dot(s, i + 3, k)
}

/// True when `k` closes a plain or `&`-prefixed tag opened at `i` whose
/// name trims to `.`.
pub open spec fn plain_dot_close(s: Seq<char>, i: int, k: int) -> bool {
    &&& first_close_at(s, i + 2, k)
    &&& k + 1 < s.len()
    &&& s[k + 1] == '}'
    &&& (trims_to_dot(s, i + 2, k) || (s[i + 2] == '&' && trims_to_dot(s, i + 3, k)))
}

/// True when an interpolation tag naming the implicit iterator `.` opens at
/// `i`: `{{ . }}`, `{{& . }}` or `{{{ . }}}`. Every `{{` is treated as
/// opening a tag, which can only overshoot: inside another tag's content
/// the engine reads `{{` as plain characters.
pub open spec fn dot_tag_at(s: Seq<char>, i: int) -> bool {
    &&& 0 <= i
    &&& i + 1 < s.len()
    &&& s[i] == '{'
    &&& s[i + 1] == '{'
    &&& if i + 2 < s.len() && s[i + 2] == '{' {
        exists|k: int| #[trigger] curly_dot_close(s, i, k)
    } else {
        exists|k: int| #[trigger] plain_dot_close(s, i, k)
    }
}

/// True when no interpolation tag of the text names the implicit iterator
/// `.`. Interpolating `.` asks the engine to write the whole bindings
/// mapping as text, which it cannot do: it aborts the process instead of
/// reporting a fault, so the pipeline refuses such templates up front.
/// The scan reads the text under the engine's default `{{ }}` delimiters,
/// so it decides anything only together with `marker_free`, which keeps
/// those delimiters in force and no partial file in play.
pub open spec fn dot_tag_free(s: Seq<char>) -> bool {
    forall|i: int| !dot_tag_at(s, i)
}

/// Decides whether `s[a..b)` trims to the single name `.`.
fn dot_span(s: &str, a: usize, b: usize) -> (r: bool)
    requires
        a <= b <= s@.len(),
    ensures
        r == trims_to_dot(s@, a as int, b as int),
{
    let ghost mut dp: int = 0;
    let mut dots: usize = 0;
    let mut q: usize = a;
    while q < b
        invariant
            a <= q <= b <= s@.len(),
            dots <= 1,
            dots == 1 ==> a <= dp < q && s@[dp] == '.' && (forall|m: int|
                a <= m < q && m != dp ==> is_wspace(#[trigger] s@[m])),
            dots == 0 ==> forall|m: int| a <= m < q ==> is_wspace(#[trigger] s@[m]),
        decreases b - q,
    {
        let c = s.get_char(q);
        if c == '.' {
            if dots == 1 {
                proof {
                    assert(!trims_to_dot(s@, a as int, b as int)) by {
                        if trims_to_dot(s@, a as int, b as int) {
                            let p = choose|p: int| dot_witness(s@, a as int, b as int, p);
                            if p == dp {
                                assert(is_wspace(s@[q as int]));
                            } else {
                                assert(is_wspace(s@[dp]));
                            }
                        }
                    }
                }
                return false;
            }
            dots = 1;
            proof {
                dp = q as int;
            }
        } else if !wspace(c) {
            proof {
                assert(!trims_to_dot(s@, a as int, b as int)) by {
                    if trims_to_dot(s@, a as int, b as int) {
                        let p = choose|p: int| dot_witness(s@, a as int, b as int, p);
                        if p == q as int {
                            assert(s@[q as int] == '.');
                        } else {
                            assert(is_wspace(s@[q as int]));
                        }
                    }
                }
            }
            return false;
        }
        q = q + 1;
    }
    if dots == 1 {
        proof {
            assert(dot_witness(s@, a as int, b as int, dp));
        }
        true
    } else {
        proof {
            assert(!trims_to_dot(s@, a as int, b as int)) by {
                if trims_to_dot(s@, a as int, b as int) {
                    let p = choose|p: int| dot_witness(s@, a as int, b as int, p);
                    assert(is_wspace(s@[p]));
                }
            }
        }
        false
    }
}

/// Finds the first `}` at or after `start`.
fn find_close(s: &str, start: usize) -> (r: Option<usize>)
    requires
        start <= s@.len(),
    ensures
        match r {
            Some(k) => first_close_at(s@, start as int, k as int),
            None => forall|m: int| start <= m < s@.len() ==> s@[m] != '}',
        },
{
    let n = s.unicode_len();
    let mut k = start;
    while k < n
        invariant
            n == s@.len(),
            start <= k <= n,
            forall|m: int| start <= m < k ==> s@[m] != '}',
        decreases n - k,
    {
        if s.get_char(k) == '}' {
            return Some(k);
        }
        k = k + 1;
    }
    None
}

/// Decides `dot_tag_free` for a template text.
pub fn scan_dot_tag_free(s: &str) -> (r: bool)
    ensures
        r == dot_tag_free(s@),
{
    let n = s.unicode_len();
    let mut i: usize = 0;
    while i < n
        invariant
            n == s@.len(),
            0 <= i <= n,
            forall|w: int| w < i ==> !dot_tag_at(s@, w),
        decreases n - i,
    {
        if i + 1 < n && s.get_char(i) == '{' && s.get_char(i + 1) == '{' {
            let curly = i + 2 < n && s.get_char(i + 2) == '{';
            let start = if curly {
                i + 3
            } else {
                i + 2
            };
            match find_close(s, start) {
                None => {
                    proof {
                        assert(!dot_tag_at(s@, i as int)) by {
                            if dot_tag_at(s@, i as int) {
                                if curly {
                                    let k = choose|k: int| curly_dot_close(s@, i as int, k);
                                    assert(s@[k] == '}');
                                } else {
                                    let k = choose|k: int| plain_dot_close(s@, i as int, k);
                                    assert(s@[k] == '}');
                                }
                            }
                        }
                    }
                },
                Some(k) => {
                    let hit: bool = if curly {
                        n - k > 2 && s.get_char(k + 1) == '}' && s.get_char(k + 2) == '}'
                            && dot_span(s, start, k)
                    } else {
                        n - k > 1 && s.get_char(k + 1) == '}' && (dot_span(s, i + 2, k) || (k > i
                            + 2 && s.get_char(i + 2) == '&' && dot_span(s, i + 3, k)))
                    };
                    if hit {
                        proof {
                            if curly {
                                assert(curly_dot_close(s@, i as int, k as int));
                            } else {
                                if !trims_to_dot(s@, i as int + 2, k as int) {
                                    assert(s@[i as int + 2] == '&');
                                }
                                assert(plain_dot_close(s@, i as int, k as int));
                            }
                            assert(dot_tag_at(s@, i as int));
                        }
                        return false;
                    }
                    proof {
                        assert(!dot_tag_at(s@, i as int)) by {
                            if dot_tag_at(s@, i as int) {
                                if curly {
                                    let k2 = choose|k2: int| curly_dot_close(s@, i as int, k2);
                                    lemma_first_close_unique(
                                        s@,
                                        i as int + 3,
                                        k2,
                                        k as int,
                                    );
                                } else {
                                    let k2 = choose|k2: int| plain_dot_close(s@, i as int, k2);
                                    lemma_first_close_unique(
                                        s@,
                                        i as int + 2,
                                        k2,
                                        k as int,
                                    );
                                    if s@[i as int + 2] == '&' && trims_to_dot(
                                        s@,
                                        i as int + 3,
                                        k as int,
                                    ) {
                                        assert(s@[k as int] == '}');
                                        assert(k as int != i as int + 2);
                                    }
                                }
                            }
                        }
                    }
                },
            }
        } else {
            proof {
                assert(!dot_tag_at(s@, i as int));
            }
        }
        i = i + 1;
    }
    proof {
        assert forall|w: int| !dot_tag_at(s@, w) by {
            if 0 <= w < i as int {
            }
        }
    }
    true
}

/// A parsed, renderable template, remembering the text it came from.
pub struct CompiledTemplate {
    src: String,
    inner: mustache::Template,
}

impl CompiledTemplate {
    /// The text this template was compiled from.
    pub closed spec fn source(&self) -> Seq<char> {
        self.src@
    }
}

/// Whether the engine accepts a template text; meaningful for marker-free
/// text, where acceptance depends on the text alone.
pub uninterp spec fn compiles_to_template(src: Seq<char>) -> bool;

/// The text the engine renders from a marker-free template text and a list
/// of key/value bindings, or nothing where the engine reports a fault.
pub uninterp spec fn rendering(src: Seq<char>, bindings: Seq<(Seq<char>, Seq<char>)>) -> Option<
    Seq<char>,
>;

/// Relies on `mustache::compile_str`: compiling reads nothing outside the
/// given text unless the text holds a partial or set-delimiter tag, so for
/// marker-free text acceptance is a function of the text alone.
#[verifier::external_body]
pub(crate) fn compile_template(src: &str) -> (r: Result<CompiledTemplate, String>)
    ensures
        r matches Ok(t) ==> t.source() == src@,
        marker_free(src@) ==> (r is Ok <==> compiles_to_template(src@)),
{
    match mustache::compile_str(src) {
        Ok(t) => Ok(CompiledTemplate { src: src.to_string(), inner: t }),
        Err(e) => Err(format!("{}", e)),
    }
}

/// Relies on `mustache::Template::render_data_to_string`: for a template
/// free of partial, set-delimiter and implicit-iterator tags, rendering
/// walks the compiled tokens and the given bindings only, every
/// interpolation resolves to a string or to nothing, and the rendered text
/// is a function of the template text and the bindings. On a tag that
/// names the implicit iterator `.` the engine aborts the process (its
/// `render_utag` cannot write the bindings mapping itself), and a partial
/// or set-delimiter tag lets such a tag arrive under other delimiters or
/// from a file beside the template, past any scan of the text itself — so
/// `requires` leaves all of those templates out.
#[verifier::external_body]
pub(crate) fn render_compiled(t: &CompiledTemplate, bindings: &Vec<(String, String)>) -> (r:
    Result<String, String>)
    requires
        marker_free(t.source()),
        dot_tag_free(t.source()),
    ensures
        match r {
            Ok(out) => rendering(t.source(), pairs_view(bindings@)) == Some(out@),
            Err(_) => rendering(t.source(), pairs_view(bindings@)) is None,
        },
{
    let mut b = mustache::MapBuilder::new();
    for (k, v) in bindings.iter() {
        b = b.insert_str(k.clone(), v.clone());
    }
    match t.inner.render_data_to_string(&b.build()) {
        Ok(s) => Ok(s),
        Err(e) => Err(format!("{}", e)),
    }
}

} // verus!
