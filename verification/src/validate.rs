//! Checking variable bindings against a template's schema.
//!
//! For each declared variable, the supplied value wins over the default; a
//! required variable with neither is a hard failure, and a value that breaks
//! its naming rule is a hard failure. Supplied names the schema does not
//! declare are collected as warnings, never silently dropped and never a
//! content hazard: only declared variables enter the render context.

use vstd::prelude::*;

use crate::catalog::VarSpec;
use crate::catalog::check_rule;
use crate::catalog::rule_allows;
use crate::catalog::schema_names_unique;
use crate::context::Binding;
use crate::context::RenderContext;
use crate::context::bindings_map;
use crate::context::lookup_binding;
use crate::context::raw_lookup;
use crate::errors::ErrorModel;
use crate::errors::GenError;
use crate::text::bytes_eq;
use crate::text::copy_bytes;

verus! {

/// The value a declared variable takes under the given bindings: the supplied
/// value if any, else the default if any.
pub open spec fn var_value(v: VarSpec, bs: Seq<Binding>) -> Option<Seq<u8>> {
    match raw_lookup(bs, v.name@) {
        Some(x) => Some(x),
        None => match v.default {
            Some(d) => Some(d@),
            None => None,
        },
    }
}

/// A declared variable fails validation: it is required but has no value, or
/// its value breaks its naming rule.
pub open spec fn var_fails(v: VarSpec, bs: Seq<Binding>) -> bool {
    match var_value(v, bs) {
        None => v.required,
        Some(x) => !rule_allows(v.rule, x),
    }
}

/// The first declared variable at or after `i` that fails validation.
pub open spec fn first_bad_from(schema: Seq<VarSpec>, i: int, bs: Seq<Binding>) -> Option<int>
    decreases schema.len() - i,
    when 0 <= i <= schema.len()
{
    if i >= schema.len() {
        None
    } else if var_fails(schema[i], bs) {
        Some(i)
    } else {
        first_bad_from(schema, i + 1, bs)
    }
}

/// The first declared variable that fails validation, if any.
pub open spec fn first_bad(schema: Seq<VarSpec>, bs: Seq<Binding>) -> Option<int> {
    first_bad_from(schema, 0, bs)
}

pub proof fn lemma_first_bad_from(schema: Seq<VarSpec>, i: int, bs: Seq<Binding>)
    requires
        0 <= i <= schema.len(),
    ensures
        first_bad_from(schema, i, bs) matches Some(j) ==> i <= j < schema.len() && var_fails(
            schema[j],
            bs,
        ) && (forall|k: int| i <= k < j ==> !var_fails(#[trigger] schema[k], bs)),
        first_bad_from(schema, i, bs) is None ==> forall|k: int|
            i <= k < schema.len() ==> !var_fails(#[trigger] schema[k], bs),
    decreases schema.len() - i,
{
    if i < schema.len() && !var_fails(schema[i], bs) {
        lemma_first_bad_from(schema, i + 1, bs);
    }
}

/// Some declared variable fails, so validation reports a failure.
pub proof fn lemma_first_bad_finds(schema: Seq<VarSpec>, i: int, j: int, bs: Seq<Binding>)
    requires
        0 <= i <= j < schema.len(),
        var_fails(schema[j], bs),
    ensures
        first_bad_from(schema, i, bs) matches Some(k) && i <= k <= j,
    decreases j - i,
{
    if i < j && !var_fails(schema[i], bs) {
        lemma_first_bad_finds(schema, i + 1, j, bs);
    }
}

/// The context the first `i` declared variables contribute: each maps to its
/// value when it has one.
pub open spec fn ctx_map(schema: Seq<VarSpec>, i: int, bs: Seq<Binding>) -> Map<Seq<u8>, Seq<u8>>
    decreases i,
{
    if i <= 0 {
        Map::empty()
    } else {
        let m = ctx_map(schema, i - 1, bs);
        match var_value(schema[i - 1], bs) {
            Some(x) => m.insert(schema[i - 1].name@, x),
            None => m,
        }
    }
}

/// The full context a schema and bindings denote.
pub open spec fn schema_ctx(schema: Seq<VarSpec>, bs: Seq<Binding>) -> Map<Seq<u8>, Seq<u8>> {
    ctx_map(schema, schema.len() as int, bs)
}

/// Every name in a prefix context is the name of some declared variable of
/// the prefix.
pub proof fn lemma_ctx_map_dom(schema: Seq<VarSpec>, i: int, bs: Seq<Binding>)
    requires
        0 <= i <= schema.len(),
    ensures
        forall|n: Seq<u8>|
            ctx_map(schema, i, bs).dom().contains(n) ==> exists|k: int|
                0 <= k < i && (#[trigger] schema[k].name@) == n,
    decreases i,
{
    if i > 0 {
        lemma_ctx_map_dom(schema, i - 1, bs);
        assert forall|n: Seq<u8>| ctx_map(schema, i, bs).dom().contains(n) implies exists|k: int|
            0 <= k < i && (#[trigger] schema[k].name@) == n by {
            if schema[i - 1].name@ == n && var_value(schema[i - 1], bs) is Some {
                assert(schema[i - 1].name@ == n);
            } else {
                assert(ctx_map(schema, i - 1, bs).dom().contains(n));
            }
        }
    }
}

/// Appending a binding with a fresh name extends the denoted map by exactly
/// that entry.
pub proof fn lemma_bindings_map_push(s: Seq<Binding>, b: Binding)
    requires
        !bindings_map(s).dom().contains(b.name@),
    ensures
        bindings_map(s.push(b)) == bindings_map(s).insert(b.name@, b.value@),
    decreases s.len(),
{
    if s.len() == 0 {
        assert(s.push(b).skip(1) =~= s);
        assert(bindings_map(s.push(b)) =~= bindings_map(s).insert(b.name@, b.value@));
    } else {
        assert(s.push(b).skip(1) =~= s.skip(1).push(b));
        assert(s.push(b)[0] == s[0]);
        lemma_bindings_map_push(s.skip(1), b);
        assert(bindings_map(s.skip(1).push(b)).insert(s[0].name@, s[0].value@) =~= bindings_map(
            s.skip(1),
        ).insert(b.name@, b.value@).insert(s[0].name@, s[0].value@));
        assert(bindings_map(s.skip(1)).insert(b.name@, b.value@).insert(s[0].name@, s[0].value@)
            =~= bindings_map(s).insert(b.name@, b.value@));
    }
}

/// The error validation reports when variable `j` is the first to fail.
pub open spec fn validate_err(schema: Seq<VarSpec>, j: int, bs: Seq<Binding>) -> ErrorModel {
    if var_value(schema[j], bs) is None {
        ErrorModel::MissingRequiredVariable(schema[j].name@)
    } else {
        ErrorModel::InvalidVariable(schema[j].name@)
    }
}

/// Some declared variable carries this name.
pub open spec fn declared(schema: Seq<VarSpec>, n: Seq<u8>) -> bool {
    exists|i: int| 0 <= i < schema.len() && (#[trigger] schema[i].name@) == n
}

fn is_declared(schema: &Vec<VarSpec>, name: &Vec<u8>) -> (r: bool)
    ensures
        r == declared(schema@, name@),
{
    let mut i: usize = 0;
    while i < schema.len()
        invariant
            i <= schema@.len(),
            forall|k: int| 0 <= k < i ==> (#[trigger] schema@[k].name@) != name@,
        decreases schema@.len() - i,
    {
        if bytes_eq(&schema[i].name, name) {
            return true;
        }
        i += 1;
    }
    false
}

/// Validates and normalizes bindings against a schema: applies defaults,
/// enforces required variables and naming rules, and collects warnings for
/// supplied names the schema does not declare. Succeeds exactly when no
/// declared variable fails; the resulting context maps each declared variable
/// with a value to that value and holds nothing else.
pub fn validate(schema: &Vec<VarSpec>, bindings: &Vec<Binding>) -> (r: Result<
    RenderContext,
    GenError,
>)
    requires
        schema_names_unique(schema@),
    ensures
        (r is Ok) == (first_bad(schema@, bindings@) is None),
        r matches Ok(ctx) ==> ctx@ == schema_ctx(schema@, bindings@),
        r matches Ok(ctx) ==> forall|w: int|
            0 <= w < ctx.warnings@.len() ==> !declared(schema@, (#[trigger] ctx.warnings@[w])@)
                && raw_lookup(bindings@, ctx.warnings@[w]@) is Some,
        r matches Ok(ctx) ==> forall|k: int|
            0 <= k < bindings@.len() ==> declared(schema@, (#[trigger] bindings@[k]).name@)
                || exists|w: int| 0 <= w < ctx.warnings@.len() && (#[trigger] ctx.warnings@[w])@
                == bindings@[k].name@,
        r matches Err(e) ==> (first_bad(schema@, bindings@) matches Some(j) && e@ == validate_err(
            schema@,
            j,
            bindings@,
        )),
{
    let mut pairs: Vec<Binding> = Vec::new();
    let mut i: usize = 0;
    while i < schema.len()
        invariant
            i <= schema@.len(),
            schema_names_unique(schema@),
            first_bad(schema@, bindings@) == first_bad_from(schema@, i as int, bindings@),
            bindings_map(pairs@) == ctx_map(schema@, i as int, bindings@),
        decreases schema@.len() - i,
    {
        let v = &schema[i];
        let value: Option<Vec<u8>> = match lookup_binding(bindings, &v.name) {
            Some(x) => Some(copy_bytes(x)),
            None => match &v.default {
                Some(d) => Some(copy_bytes(d)),
                None => None,
            },
        };
        match value {
            None => {
                if v.required {
                    proof {
                        assert(var_fails(schema@[i as int], bindings@));
                    }
                    return Err(GenError::MissingRequiredVariable(copy_bytes(&v.name)));
                }
                proof {
                    assert(!var_fails(schema@[i as int], bindings@));
                }
            },
            Some(val) => {
                if !check_rule(v.rule, &val) {
                    proof {
                        assert(var_fails(schema@[i as int], bindings@));
                    }
                    return Err(GenError::InvalidVariable(copy_bytes(&v.name)));
                }
                proof {
                    assert(!var_fails(schema@[i as int], bindings@));
                    lemma_ctx_map_dom(schema@, i as int, bindings@);
                    assert(!bindings_map(pairs@).dom().contains(schema@[i as int].name@));
                }
                let b = Binding { name: copy_bytes(&v.name), value: val };
                proof {
                    lemma_bindings_map_push(pairs@, b);
                }
                pairs.push(b);
            },
        }
        i += 1;
    }
    let mut warnings: Vec<Vec<u8>> = Vec::new();
    let mut k: usize = 0;
    while k < bindings.len()
        invariant
            k <= bindings@.len(),
            forall|w: int|
                0 <= w < warnings@.len() ==> !declared(schema@, (#[trigger] warnings@[w])@)
                    && raw_lookup(bindings@, warnings@[w]@) is Some,
            forall|j: int|
                0 <= j < k ==> declared(schema@, (#[trigger] bindings@[j]).name@) || exists|w: int|
                    0 <= w < warnings@.len() && (#[trigger] warnings@[w])@ == bindings@[j].name@,
        decreases bindings@.len() - k,
    {
        let ghost before = warnings@;
        if !is_declared(schema, &bindings[k].name) {
            let w = copy_bytes(&bindings[k].name);
            proof {
                crate::context::lemma_raw_lookup_present(bindings@, k as int);
            }
            warnings.push(w);
        }
        proof {
            assert forall|j: int|
                0 <= j < k + 1 implies declared(schema@, (#[trigger] bindings@[j]).name@) || exists|
                w: int,
            | 0 <= w < warnings@.len() && (#[trigger] warnings@[w])@ == bindings@[j].name@ by {
                if !declared(schema@, bindings@[j].name@) {
                    if j == k as int {
                        assert(warnings@[warnings@.len() - 1]@ == bindings@[j].name@);
                    } else {
                        let w = choose|w: int|
                            0 <= w < before.len() && (#[trigger] before[w])@ == bindings@[j].name@;
                        assert(warnings@[w]@ == bindings@[j].name@);
                    }
                }
            }
        }
        k += 1;
    }
    Ok(RenderContext { pairs, warnings })
}

} // verus!
