use crate::context::{alt_met, authorizes, resolve, restriction_met, Context};
use crate::policy::{all_generate, joined_labels, merged_alts, pay_alts, readonly_alts, DefRules};
use crate::restriction::AltView;
use vstd::prelude::*;

verus! {

/// A rune without restrictions, such as a fresh master rune, authorizes
/// every context.
pub proof fn lemma_unrestricted_authorizes(ctx: Context)
    ensures
        authorizes(ctx, Seq::<Seq<AltView>>::empty()),
{
}

/// The restriction lists that a list of policies generates, in order.
pub open spec fn generated(ps: Seq<DefRules>) -> Seq<Seq<AltView>> {
    ps.map_values(|p: DefRules| p.alts().unwrap())
}

/// Carving never widens authority: a context authorized by the restrictions
/// of a rune followed by those that policies generate is authorized by the
/// rune's restrictions alone.
pub proof fn lemma_carve_narrows(ctx: Context, rs: Seq<Seq<AltView>>, ps: Seq<DefRules>)
    requires
        all_generate(ps),
    ensures
        authorizes(ctx, rs + generated(ps)) ==> authorizes(ctx, rs),
{
    if authorizes(ctx, rs + generated(ps)) {
        assert forall|i: int| 0 <= i < rs.len() implies restriction_met(ctx, #[trigger] rs[i]) by {
            assert((rs + generated(ps))[i] == rs[i]);
        }
    }
}

proof fn lemma_method_resolves(ctx: Context)
    ensures
        resolve(ctx, "method"@) == Some(ctx.method@),
        resolve(ctx, "pubkey"@) == Some(ctx.pubkey@),
{
    reveal_strlit("method");
    reveal_strlit("pubkey");
    assert("method"@.len() > 0);
    assert("pubkey"@ != "method"@) by {
        assert("pubkey"@[0] != "method"@[0]);
    }
}

/// The read-only policy admits exactly the methods that begin with "Get" or
/// with "List".
pub proof fn lemma_readonly_policy(ctx: Context)
    ensures
        restriction_met(ctx, readonly_alts())
            <==> ("Get"@.is_prefix_of(ctx.method@) || "List"@.is_prefix_of(ctx.method@)),
{
    lemma_method_resolves(ctx);
    let alts = readonly_alts();
    if "Get"@.is_prefix_of(ctx.method@) {
        assert(alt_met(ctx, alts[0]));
    }
    if "List"@.is_prefix_of(ctx.method@) {
        assert(alt_met(ctx, alts[1]));
    }
}

/// The pay policy admits exactly the method "pay".
pub proof fn lemma_pay_policy(ctx: Context)
    ensures
        restriction_met(ctx, pay_alts()) <==> ctx.method@ == "pay"@,
{
    lemma_method_resolves(ctx);
    if ctx.method@ == "pay"@ {
        assert(alt_met(ctx, pay_alts()[0]));
    }
}

/// An equality test on `pubkey` admits exactly the contexts with that key,
/// whatever their method.
pub proof fn lemma_pubkey_equal(ctx: Context, key: Seq<char>)
    ensures
        restriction_met(ctx, seq![("pubkey"@, runeauth::Condition::Equal, key)]) <==> ctx.pubkey@ == key,
{
    lemma_method_resolves(ctx);
    let alts = seq![("pubkey"@, runeauth::Condition::Equal, key)];
    if ctx.pubkey@ == key {
        assert(alt_met(ctx, alts[0]));
    }
}

/// A `Missing` test on `pubkey` admits exactly the contexts whose key is
/// empty.
pub proof fn lemma_pubkey_missing(ctx: Context)
    ensures
        restriction_met(ctx, seq![("pubkey"@, runeauth::Condition::Missing, Seq::<char>::empty())])
            <==> ctx.pubkey@.len() == 0,
{
    lemma_method_resolves(ctx);
    let alts = seq![("pubkey"@, runeauth::Condition::Missing, Seq::<char>::empty())];
    if ctx.pubkey@.len() == 0 {
        assert(alt_met(ctx, alts[0]));
    }
}

/// What a policy admits within its restriction slot, for a policy that generates.
pub open spec fn policy_met(ctx: Context, p: DefRules) -> bool {
    restriction_met(ctx, p.alts().unwrap())
}

proof fn lemma_met_concat(ctx: Context, a: Seq<AltView>, b: Seq<AltView>)
    ensures
        restriction_met(ctx, a + b) <==> (restriction_met(ctx, a) || restriction_met(ctx, b)),
{
    if restriction_met(ctx, a + b) {
        let i = choose|i: int| 0 <= i < (a + b).len() && alt_met(ctx, #[trigger] (a + b)[i]);
        if i < a.len() {
            assert((a + b)[i] == a[i]);
        } else {
            assert((a + b)[i] == b[i - a.len()]);
        }
    }
    if restriction_met(ctx, a) {
        let i = choose|i: int| 0 <= i < a.len() && alt_met(ctx, #[trigger] a[i]);
        assert((a + b)[i] == a[i]);
    }
    if restriction_met(ctx, b) {
        let i = choose|i: int| 0 <= i < b.len() && alt_met(ctx, #[trigger] b[i]);
        assert((a + b)[i + a.len()] == b[i]);
    }
}

proof fn lemma_merged_union(ctx: Context, rules: Seq<DefRules>)
    requires
        all_generate(rules),
    ensures
        merged_alts(rules) is Some,
        restriction_met(ctx, merged_alts(rules).unwrap())
            <==> exists|i: int| 0 <= i < rules.len() && policy_met(ctx, #[trigger] rules[i]),
    decreases rules.len(),
{
    if rules.len() > 0 {
        let p = rules.drop_last();
        let last = rules[rules.len() - 1];
        assert forall|i: int| 0 <= i < p.len() implies (#[trigger] p[i]).alts() is Some by {
            assert(p[i] == rules[i]);
        }
        lemma_merged_union(ctx, p);
        let head = merged_alts(p).unwrap();
        assert(last.alts() is Some);
        assert(merged_alts(rules) == Some(head + last.alts().unwrap()));
        lemma_met_concat(ctx, head, last.alts().unwrap());
        if exists|i: int| 0 <= i < rules.len() && policy_met(ctx, #[trigger] rules[i]) {
            let i = choose|i: int| 0 <= i < rules.len() && policy_met(ctx, #[trigger] rules[i]);
            if i < p.len() {
                assert(p[i] == rules[i]);
            }
        }
        if exists|i: int| 0 <= i < p.len() && policy_met(ctx, #[trigger] p[i]) {
            let i = choose|i: int| 0 <= i < p.len() && policy_met(ctx, #[trigger] p[i]);
            assert(p[i] == rules[i]);
        }
    }
}

/// An `Add` of policies that each generate admits a context in its slot
/// exactly when one of the policies does: its alternatives are their union.
pub proof fn lemma_add_is_union(ctx: Context, rules: Vec<DefRules>)
    requires
        all_generate(rules@),
        rules@.len() > 0,
    ensures
        DefRules::Add(rules).alts() is Some,
        policy_met(ctx, DefRules::Add(rules))
            <==> exists|i: int| 0 <= i < rules@.len() && policy_met(ctx, #[trigger] rules@[i]),
{
    lemma_merged_union(ctx, rules@);
    lemma_merged_nonempty(rules@);
}

proof fn lemma_merged_nonempty(rules: Seq<DefRules>)
    requires
        all_generate(rules),
        rules.len() > 0,
    ensures
        merged_alts(rules) matches Some(a) && a.len() > 0,
    decreases rules.len(),
{
    let p = rules.drop_last();
    assert forall|i: int| 0 <= i < p.len() implies (#[trigger] p[i]).alts() is Some by {
        assert(p[i] == rules[i]);
    }
    let last = rules[rules.len() - 1];
    assert(last.alts() is Some);
    if p.len() > 0 {
        lemma_merged_nonempty(p);
    }
    lemma_merged_some(p);
}

proof fn lemma_merged_some(rules: Seq<DefRules>)
    requires
        all_generate(rules),
    ensures
        merged_alts(rules) is Some,
    decreases rules.len(),
{
    if rules.len() > 0 {
        let p = rules.drop_last();
        assert forall|i: int| 0 <= i < p.len() implies (#[trigger] p[i]).alts() is Some by {
            assert(p[i] == rules[i]);
        }
        lemma_merged_some(p);
        assert(rules[rules.len() - 1].alts() is Some);
    }
}

} // verus!

verus! {

/// Labels joined by `|`, in order.
pub open spec fn join_bar(ls: Seq<Seq<char>>) -> Seq<char>
    decreases ls.len(),
{
    if ls.len() == 0 {
        Seq::empty()
    } else if ls.len() == 1 {
        ls[0]
    } else {
        join_bar(ls.drop_last()).push('|') + ls.last()
    }
}

/// The labels of a list of policies, in order.
pub open spec fn labels(rules: Seq<DefRules>) -> Seq<Seq<char>> {
    rules.map_values(|p: DefRules| p.label())
}

proof fn lemma_joined_labels(rules: Seq<DefRules>)
    requires
        forall|i: int| 0 <= i < rules.len() ==> (#[trigger] rules[i]).label().len() > 0,
    ensures
        joined_labels(rules) == join_bar(labels(rules)),
        rules.len() > 0 ==> joined_labels(rules).len() > 0,
    decreases rules.len(),
{
    if rules.len() > 0 {
        let p = rules.drop_last();
        assert forall|i: int| 0 <= i < p.len() implies (#[trigger] p[i]).label().len() > 0 by {
            assert(p[i] == rules[i]);
        }
        lemma_joined_labels(p);
        assert(labels(rules).drop_last() =~= labels(p));
        assert(labels(rules).last() == rules[rules.len() - 1].label());
        assert(rules[rules.len() - 1].label().len() > 0);
        if p.len() > 0 {
            assert(joined_labels(rules) =~= joined_labels(p).push('|') + rules[rules.len() - 1].label());
        } else {
            assert(labels(rules).len() == 1);
        }
    }
}

/// An `Add` whose policies all have non-empty labels is labelled by those
/// labels joined by `|`, in list order (neither sorted nor deduplicated).
pub proof fn lemma_add_label(rules: Vec<DefRules>)
    requires
        forall|i: int| 0 <= i < rules@.len() ==> (#[trigger] rules@[i]).label().len() > 0,
    ensures
        DefRules::Add(rules).label() == join_bar(labels(rules@)),
{
    lemma_joined_labels(rules@);
}

} // verus!
