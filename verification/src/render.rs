//! The placeholder substitution engine.
//!
//! Token grammar: `{{` then an identifier (a letter, then letters, digits and
//! underscores) then `}}`. Substitution is flat: a token is replaced by the
//! bound value of its identifier, and nothing else in the text is touched.
//! A doubled opening delimiter `{{{{` is the escape for a literal `{{`, so a
//! template can contain the delimiter itself without triggering substitution.
//! An opening `{{` that forms neither a token nor an escape is ordinary text
//! and passes through unchanged.
//!
//! A token whose identifier has no binding in the render context is a hard
//! failure: rendering returns the identifier, never output with the token
//! silently left in place.

use vstd::prelude::*;

use crate::context::RenderContext;
use crate::context::lemma_raw_lookup_map;
use crate::text::LBRACE;
use crate::text::RBRACE;
use crate::text::byte_is_ident_char;
use crate::text::byte_is_letter;
use crate::text::copy_range;
use crate::text::is_ident_char;
use crate::text::is_letter;
use crate::text::push_bytes;

verus! {

/// The first position at or after `i` holding a byte that cannot continue an
/// identifier (or the end of the text).
pub open spec fn ident_end(t: Seq<u8>, i: int) -> int
    decreases t.len() - i,
{
    if i < 0 || i >= t.len() {
        i
    } else if is_ident_char(t[i]) {
        ident_end(t, i + 1)
    } else {
        i
    }
}

/// An escape starts at `i`: four opening braces standing for a literal `{{`.
pub open spec fn escape_at(t: Seq<u8>, i: int) -> bool {
    &&& 0 <= i
    &&& i + 4 <= t.len()
    &&& t[i] == LBRACE
    &&& t[i + 1] == LBRACE
    &&& t[i + 2] == LBRACE
    &&& t[i + 3] == LBRACE
}

/// A placeholder token starts at `i`: `{{`, an identifier, `}}`.
pub open spec fn token_at(t: Seq<u8>, i: int) -> bool {
    &&& 0 <= i
    &&& i + 3 <= t.len()
    &&& t[i] == LBRACE
    &&& t[i + 1] == LBRACE
    &&& is_letter(t[i + 2])
    &&& {
        let j = ident_end(t, i + 3);
        &&& i + 3 <= j
        &&& j + 2 <= t.len()
        &&& t[j] == RBRACE
        &&& t[j + 1] == RBRACE
    }
}

/// The identifier of the token starting at `i`.
pub open spec fn token_ident(t: Seq<u8>, i: int) -> Seq<u8> {
    t.subrange(i + 2, ident_end(t, i + 3))
}

/// What rendering the text from position `i` onward yields: the rendered
/// output, or the identifier of the first token with no binding in `m`.
pub open spec fn render_from(t: Seq<u8>, i: int, m: Map<Seq<u8>, Seq<u8>>) -> Result<
    Seq<u8>,
    Seq<u8>,
>
    decreases t.len() - i,
    when 0 <= i <= t.len()
{
    if i >= t.len() {
        Ok(Seq::empty())
    } else if escape_at(t, i) {
        match render_from(t, i + 4, m) {
            Ok(rest) => Ok(seq![LBRACE, LBRACE] + rest),
            Err(e) => Err(e),
        }
    } else if token_at(t, i) {
        let id = token_ident(t, i);
        if m.dom().contains(id) {
            match render_from(t, ident_end(t, i + 3) + 2, m) {
                Ok(rest) => Ok(m[id] + rest),
                Err(e) => Err(e),
            }
        } else {
            Err(id)
        }
    } else {
        match render_from(t, i + 1, m) {
            Ok(rest) => Ok(seq![t[i]] + rest),
            Err(e) => Err(e),
        }
    }
}

/// What rendering a whole text against a context yields.
pub open spec fn rendered(t: Seq<u8>, m: Map<Seq<u8>, Seq<u8>>) -> Result<Seq<u8>, Seq<u8>> {
    render_from(t, 0, m)
}

/// Law: determinism of rendering — the output is a function of the template
/// text and the context alone, so equal inputs render equally.
pub proof fn lemma_render_deterministic(
    t1: Seq<u8>,
    m1: Map<Seq<u8>, Seq<u8>>,
    t2: Seq<u8>,
    m2: Map<Seq<u8>, Seq<u8>>,
)
    requires
        t1 == t2,
        m1 == m2,
    ensures
        rendered(t1, m1) == rendered(t2, m2),
{
}

/// Output already accumulated, followed by the outcome of the rest.
pub open spec fn compose(pre: Seq<u8>, r: Result<Seq<u8>, Seq<u8>>) -> Result<Seq<u8>, Seq<u8>> {
    match r {
        Ok(rest) => Ok(pre + rest),
        Err(e) => Err(e),
    }
}

proof fn lemma_escape_step(t: Seq<u8>, i: int, m: Map<Seq<u8>, Seq<u8>>, pre: Seq<u8>)
    requires
        0 <= i <= t.len(),
        escape_at(t, i),
        compose(pre, render_from(t, i, m)) == render_from(t, 0, m),
    ensures
        compose(pre + seq![LBRACE, LBRACE], render_from(t, i + 4, m)) == render_from(t, 0, m),
{
    match render_from(t, i + 4, m) {
        Ok(rest) => {
            assert(pre + (seq![LBRACE, LBRACE] + rest) =~= (pre + seq![LBRACE, LBRACE]) + rest);
        },
        Err(_) => {},
    }
}

proof fn lemma_token_step(t: Seq<u8>, i: int, m: Map<Seq<u8>, Seq<u8>>, pre: Seq<u8>)
    requires
        0 <= i <= t.len(),
        !escape_at(t, i),
        token_at(t, i),
        m.dom().contains(token_ident(t, i)),
        compose(pre, render_from(t, i, m)) == render_from(t, 0, m),
    ensures
        compose(pre + m[token_ident(t, i)], render_from(t, ident_end(t, i + 3) + 2, m))
            == render_from(t, 0, m),
{
    let v = m[token_ident(t, i)];
    match render_from(t, ident_end(t, i + 3) + 2, m) {
        Ok(rest) => {
            assert(pre + (v + rest) =~= (pre + v) + rest);
        },
        Err(_) => {},
    }
}

proof fn lemma_token_missing(t: Seq<u8>, i: int, m: Map<Seq<u8>, Seq<u8>>, pre: Seq<u8>)
    requires
        0 <= i <= t.len(),
        !escape_at(t, i),
        token_at(t, i),
        !m.dom().contains(token_ident(t, i)),
        compose(pre, render_from(t, i, m)) == render_from(t, 0, m),
    ensures
        render_from(t, 0, m) == Err::<Seq<u8>, Seq<u8>>(token_ident(t, i)),
{
}

proof fn lemma_literal_step(t: Seq<u8>, i: int, m: Map<Seq<u8>, Seq<u8>>, pre: Seq<u8>)
    requires
        0 <= i < t.len(),
        !escape_at(t, i),
        !token_at(t, i),
        compose(pre, render_from(t, i, m)) == render_from(t, 0, m),
    ensures
        compose(pre.push(t[i]), render_from(t, i + 1, m)) == render_from(t, 0, m),
{
    match render_from(t, i + 1, m) {
        Ok(rest) => {
            assert(pre + (seq![t[i]] + rest) =~= pre.push(t[i]) + rest);
        },
        Err(_) => {},
    }
}

/// Renders `text` against `ctx`: every placeholder token is replaced by the
/// bound value of its identifier, every escape by a literal `{{`, and all
/// other bytes pass through. Returns the rendered bytes, or the identifier of
/// the first token whose identifier the context does not bind.
pub fn render(text: &Vec<u8>, ctx: &RenderContext) -> (r: Result<Vec<u8>, Vec<u8>>)
    ensures
        r matches Ok(out) ==> (rendered(text@, ctx@) matches Ok(s) && s == out@),
        r matches Err(id) ==> (rendered(text@, ctx@) matches Err(e) && e == id@),
{
    let n = text.len();
    let mut out: Vec<u8> = Vec::new();
    let mut i: usize = 0;
    proof {
        match render_from(text@, 0, ctx@) {
            Ok(s) => {
                assert(Seq::<u8>::empty() + s =~= s);
            },
            Err(_) => {},
        }
    }
    while i < n
        invariant
            i <= n,
            n == text@.len(),
            compose(out@, render_from(text@, i as int, ctx@)) == render_from(text@, 0, ctx@),
        decreases n - i,
    {
        if n - i >= 4 && text[i] == LBRACE && text[i + 1] == LBRACE && text[i + 2] == LBRACE
            && text[i + 3] == LBRACE {
            let ghost pre = out@;
            proof {
                assert(escape_at(text@, i as int));
                lemma_escape_step(text@, i as int, ctx@, pre);
            }
            out.push(LBRACE);
            out.push(LBRACE);
            proof {
                assert(out@ =~= pre + seq![LBRACE, LBRACE]);
            }
            i += 4;
        } else if n - i >= 3 && text[i] == LBRACE && text[i + 1] == LBRACE && byte_is_letter(
            text[i + 2],
        ) {
            let mut j: usize = i + 3;
            while j < n && byte_is_ident_char(text[j])
                invariant
                    i + 3 <= j <= n,
                    n == text@.len(),
                    ident_end(text@, i as int + 3) == ident_end(text@, j as int),
                decreases n - j,
            {
                j += 1;
            }
            proof {
                assert(ident_end(text@, j as int) == j);
            }
            if j < n && n - j >= 2 && text[j] == RBRACE && text[j + 1] == RBRACE {
                proof {
                    assert(token_at(text@, i as int));
                    assert(!escape_at(text@, i as int));
                }
                let id = copy_range(text, i + 2, j);
                proof {
                    assert(id@ == token_ident(text@, i as int));
                    lemma_raw_lookup_map(ctx.pairs@, id@);
                }
                match crate::context::lookup_binding(&ctx.pairs, &id) {
                    Some(v) => {
                        let ghost pre = out@;
                        proof {
                            lemma_token_step(text@, i as int, ctx@, pre);
                            assert(ctx@[id@] == v@);
                        }
                        push_bytes(&mut out, v);
                        i = j + 2;
                    },
                    None => {
                        proof {
                            lemma_token_missing(text@, i as int, ctx@, out@);
                        }
                        return Err(id);
                    },
                }
            } else {
                proof {
                    assert(ident_end(text@, i as int + 3) == j);
                    assert(!token_at(text@, i as int));
                    assert(!escape_at(text@, i as int));
                    lemma_literal_step(text@, i as int, ctx@, out@);
                }
                let b = text[i];
                out.push(b);
                i += 1;
            }
        } else {
            proof {
                assert(!escape_at(text@, i as int));
                assert(!token_at(text@, i as int));
                lemma_literal_step(text@, i as int, ctx@, out@);
            }
            let b = text[i];
            out.push(b);
            i += 1;
        }
    }
    proof {
        assert(render_from(text@, n as int, ctx@) == Ok::<Seq<u8>, Seq<u8>>(Seq::empty()));
        assert(out@ + Seq::<u8>::empty() =~= out@);
    }
    Ok(out)
}

/// A placeholder token occurs somewhere in the text.
pub open spec fn has_token(s: Seq<u8>) -> bool {
    exists|i: int| 0 <= i && token_at(s, i)
}

/// Scans a byte string for a placeholder token; the check the totality law
/// speaks of, run on committed output.
pub fn contains_token(s: &Vec<u8>) -> (r: bool)
    ensures
        r == has_token(s@),
{
    let n = s.len();
    let mut i: usize = 0;
    while i < n
        invariant
            i <= n,
            n == s@.len(),
            forall|k: int| 0 <= k < i ==> !token_at(s@, k),
        decreases n - i,
    {
        if n - i >= 3 && s[i] == LBRACE && s[i + 1] == LBRACE && byte_is_letter(s[i + 2]) {
            let mut j: usize = i + 3;
            while j < n && byte_is_ident_char(s[j])
                invariant
                    i + 3 <= j <= n,
                    n == s@.len(),
                    ident_end(s@, i as int + 3) == ident_end(s@, j as int),
                decreases n - j,
            {
                j += 1;
            }
            proof {
                assert(ident_end(s@, j as int) == j);
            }
            if j < n && n - j >= 2 && s[j] == RBRACE && s[j + 1] == RBRACE {
                proof {
                    assert(token_at(s@, i as int));
                }
                return true;
            }
            proof {
                assert(!token_at(s@, i as int));
            }
        } else {
            proof {
                assert(!token_at(s@, i as int));
            }
        }
        i += 1;
    }
    proof {
        assert forall|k: int| 0 <= k implies !token_at(s@, k) by {
            if k >= n {
                assert(k + 3 > s@.len());
            }
        }
    }
    false
}

/// No opening brace at all occurs in the byte string.
pub open spec fn lbrace_free(s: Seq<u8>) -> bool {
    forall|i: int| 0 <= i < s.len() ==> s[i] != LBRACE
}

/// No doubled opening brace occurs in the byte string.
pub open spec fn brace_pair_free(s: Seq<u8>) -> bool {
    forall|i: int| 0 <= i && i + 1 < s.len() ==> !(#[trigger] s[i] == LBRACE && s[i + 1] == LBRACE)
}

/// The text from `i` onward is fully resolvable against `m`: every opening
/// `{{` starts a token whose identifier `m` binds to a value free of opening
/// braces, and no escape occurs. On such input rendering succeeds and — as
/// the totality law states — its output holds no token.
pub open spec fn resolvable_from(t: Seq<u8>, i: int, m: Map<Seq<u8>, Seq<u8>>) -> bool
    decreases t.len() - i,
    when 0 <= i <= t.len()
{
    if i >= t.len() {
        true
    } else if escape_at(t, i) {
        false
    } else if token_at(t, i) {
        &&& m.dom().contains(token_ident(t, i))
        &&& lbrace_free(m[token_ident(t, i)])
        &&& resolvable_from(t, ident_end(t, i + 3) + 2, m)
    } else if i + 1 < t.len() && t[i] == LBRACE && t[i + 1] == LBRACE {
        false
    } else {
        resolvable_from(t, i + 1, m)
    }
}

proof fn lemma_resolvable_renders(t: Seq<u8>, i: int, m: Map<Seq<u8>, Seq<u8>>)
    requires
        0 <= i <= t.len(),
        resolvable_from(t, i, m),
    ensures
        render_from(t, i, m) matches Ok(r) && brace_pair_free(r) && (r.len() > 0 && r[0] == LBRACE
            ==> i < t.len() && t[i] == LBRACE),
    decreases t.len() - i,
{
    if i >= t.len() {
    } else if token_at(t, i) {
        let id = token_ident(t, i);
        let v = m[id];
        let next = ident_end(t, i + 3) + 2;
        lemma_resolvable_renders(t, next, m);
        let rest = render_from(t, next, m)->Ok_0;
        let r = render_from(t, i, m)->Ok_0;
        assert(r == v + rest);
        assert forall|k: int| 0 <= k && k + 1 < r.len() implies !(#[trigger] r[k] == LBRACE
            && r[k + 1] == LBRACE) by {
            if k < v.len() {
                assert(r[k] == v[k]);
            } else {
                assert(r[k] == rest[k - v.len()]);
                assert(r[k + 1] == rest[k + 1 - v.len()]);
            }
        }
        if r.len() > 0 && r[0] == LBRACE {
            assert(t[i] == LBRACE);
        }
    } else {
        lemma_resolvable_renders(t, i + 1, m);
        let rest = render_from(t, i + 1, m)->Ok_0;
        let r = render_from(t, i, m)->Ok_0;
        assert(r == seq![t[i]] + rest);
        assert forall|k: int| 0 <= k && k + 1 < r.len() implies !(#[trigger] r[k] == LBRACE
            && r[k + 1] == LBRACE) by {
            if k == 0 {
                assert(r[0] == t[i]);
                assert(r[1] == rest[0]);
                if r[0] == LBRACE && r[1] == LBRACE {
                    assert(i + 1 < t.len() && t[i + 1] == LBRACE);
                }
            } else {
                assert(r[k] == rest[k - 1]);
                assert(r[k + 1] == rest[k]);
            }
        }
    }
}

/// Law: totality of substitution — rendering a fully resolvable template
/// succeeds, and no token matching the placeholder grammar remains in the
/// output.
pub proof fn lemma_substitution_total(t: Seq<u8>, m: Map<Seq<u8>, Seq<u8>>)
    requires
        resolvable_from(t, 0, m),
    ensures
        rendered(t, m) matches Ok(r) && !has_token(r),
{
    lemma_resolvable_renders(t, 0, m);
    let r = rendered(t, m)->Ok_0;
    if has_token(r) {
        let i = choose|i: int| 0 <= i && token_at(r, i);
        assert(r[i] == LBRACE && r[i + 1] == LBRACE);
        assert(false);
    }
}

} // verus!

