use crate::error::Error;
use crate::restriction::{all_plain, is_ascii, plain_alt, restriction_text, valid_field, AltView, Alternative, Restriction};
use crate::text::{chars_of, string_from_chars};
use vstd::arithmetic::power2::pow2;
use vstd::prelude::*;
use vstd::utf8::encode_utf8;

verus! {

/// Predefined policies that generate restrictions.
#[derive(Debug)]
pub enum DefRules {
    /// Read operations only: "method^Get|method^List".
    ReadOnly,
    /// The `pay` method only: "method=pay".
    Pay,
    /// The alternatives of all listed policies merged into one restriction:
    /// a union of their permissions within one restriction slot, which a rune
    /// still combines by AND with all its other restrictions.
    Add(Vec<DefRules>),
}

pub open spec fn readonly_alts() -> Seq<AltView> {
    seq![("method"@, runeauth::Condition::BeginsWith, "Get"@), ("method"@, runeauth::Condition::BeginsWith, "List"@)]
}

pub open spec fn pay_alts() -> Seq<AltView> {
    seq![("method"@, runeauth::Condition::Equal, "pay"@)]
}

/// The alternatives that a list of policies contributes to an `Add`, in
/// order; `None` when one of them fails to generate.
pub open spec fn merged_alts(rules: Seq<DefRules>) -> Option<Seq<AltView>>
    decreases rules,
{
    if rules.len() == 0 {
        Some(Seq::empty())
    } else {
        let last = rules[rules.len() - 1];
        match merged_alts(rules.drop_last()) {
            None => None,
            Some(head) => match last {
                DefRules::ReadOnly => Some(head + readonly_alts()),
                DefRules::Pay => Some(head + pay_alts()),
                DefRules::Add(inner) => match merged_alts(inner@) {
                    Some(a) if a.len() > 0 => Some(head + a),
                    _ => None,
                },
            },
        }
    }
}

} // verus!

verus! {

/// Relies on runeauth's `Rune`, carried through unopened.
#[verifier::external_type_specification]
#[verifier::external_body]
pub struct ExRune(runeauth::Rune);

/// The restrictions of a rune, each as its text.
pub uninterp spec fn rune_restrictions(r: runeauth::Rune) -> Seq<Seq<char>>;

/// The authentication code of a rune: the 32 bytes of its SHA-256 state.
pub uninterp spec fn rune_authcode(r: runeauth::Rune) -> Seq<u8>;

/// The number of bytes that a rune's SHA-256 state has absorbed.
pub uninterp spec fn rune_size(r: runeauth::Rune) -> nat;

/// The SHA-256 state after compressing `blocks`, a whole number of 64-byte
/// blocks, from `state`.
pub uninterp spec fn sha256_absorb(state: Seq<u8>, blocks: Seq<u8>) -> Seq<u8>;

/// The padded URL-safe base64 encoding of `b`.
pub uninterp spec fn base64_url(b: Seq<u8>) -> Seq<char>;

/// Zero bytes that take `x` up to a multiple of 64.
pub open spec fn pad_len(x: nat) -> nat {
    ((64 - x % 64) % 64) as nat
}

/// `n` as eight big-endian bytes.
pub open spec fn be64(n: nat) -> Seq<u8> {
    Seq::new(8, |i: int| ((n / pow2((56 - 8 * i) as nat)) % 256) as u8)
}

/// `data` padded as SHA-256 pads a message of `size + data.len()` bytes: a
/// `0x80` byte, zeros, and the length in bits as eight big-endian bytes.
pub open spec fn padded(size: nat, data: Seq<u8>) -> Seq<u8> {
    let length = size + data.len();
    data.push(0x80u8) + Seq::new(pad_len(length + 9), |i: int| 0u8) + be64((length * 8) % 0x1_0000_0000_0000_0000)
}

/// The SHA-256 state and size after absorbing each restriction text in turn,
/// each padded, starting from `state` and `size`.
pub open spec fn absorb_texts(state: Seq<u8>, size: nat, texts: Seq<Seq<char>>) -> (Seq<u8>, nat)
    decreases texts.len(),
{
    if texts.len() == 0 {
        (state, size)
    } else {
        let (s0, z0) = absorb_texts(state, size, texts.drop_last());
        let block = padded(z0, encode_utf8(texts.last()));
        (sha256_absorb(s0, block), z0 + block.len())
    }
}

/// Restriction texts joined by `&`.
pub open spec fn join_texts(texts: Seq<Seq<char>>) -> Seq<char>
    decreases texts.len(),
{
    if texts.len() == 0 {
        Seq::empty()
    } else if texts.len() == 1 {
        texts[0]
    } else {
        join_texts(texts.drop_last()).push('&') + texts.last()
    }
}

/// A rune token: the base64 of the authentication code followed by the
/// UTF-8 bytes of the restriction texts joined by `&`.
pub open spec fn token(authcode: Seq<u8>, texts: Seq<Seq<char>>) -> Seq<char> {
    base64_url(authcode + encode_utf8(join_texts(texts)))
}

/// Relies on the derived `Clone` of runeauth's `Rune` (its compressor derives
/// `Clone` too): the copy has the same restrictions, state and size.
#[verifier::external_body]
fn rune_clone(r: &runeauth::Rune) -> (c: runeauth::Rune)
    ensures
        rune_restrictions(c) == rune_restrictions(*r),
        rune_authcode(c) == rune_authcode(*r),
        rune_size(c) == rune_size(*r),
{
    r.clone()
}

/// Relies on runeauth's `Rune::add_restriction` on a `&str`: a restriction
/// text of plain alternatives decodes to one restriction, which is appended
/// and whose text is the same; its bytes, padded, are compressed into the
/// rune's SHA-256 state.
#[verifier::external_body]
fn rune_append(r: &mut runeauth::Rune, text: &str)
    requires
        exists|alts: Seq<AltView>| all_plain(alts) && alts.len() > 0 && text@ == restriction_text(alts),
    ensures
        rune_restrictions(*final(r)) == rune_restrictions(*old(r)).push(text@),
        rune_authcode(*final(r)) == sha256_absorb(rune_authcode(*old(r)), padded(rune_size(*old(r)), encode_utf8(text@))),
        rune_size(*final(r)) == rune_size(*old(r)) + padded(rune_size(*old(r)), encode_utf8(text@)).len(),
{
    let _ = r.add_restriction(text);
}

/// Relies on runeauth's `Rune::to_base64`: the authentication code, then the
/// restriction texts joined by `&`, encoded with base64's URL-safe padded
/// engine.
#[verifier::external_body]
fn rune_to_base64(r: &runeauth::Rune) -> (s: String)
    ensures
        s@ == base64_url(rune_authcode(*r) + encode_utf8(join_texts(rune_restrictions(*r)))),
{
    r.to_base64()
}

impl DefRules {
    /// The alternatives of the one restriction this policy generates; `None`
    /// when generation fails (an `Add` that gathers no alternative).
    pub open spec fn alts(self) -> Option<Seq<AltView>> {
        match self {
            DefRules::ReadOnly => Some(readonly_alts()),
            DefRules::Pay => Some(pay_alts()),
            DefRules::Add(rules) => match merged_alts(rules@) {
                Some(a) if a.len() > 0 => Some(a),
                _ => None,
            },
        }
    }
}

proof fn lemma_literals_plain()
    ensures
        all_plain(readonly_alts()),
        all_plain(pay_alts()),
{
    reveal_strlit("method");
    reveal_strlit("Get");
    reveal_strlit("List");
    reveal_strlit("pay");
    assert(valid_field("method"@));
    assert(is_ascii("method"@));
    assert(is_ascii("Get"@));
    assert(is_ascii("List"@));
    assert(is_ascii("pay"@));
}

fn method_alt(cond: runeauth::Condition, value: &str) -> (a: Alternative)
    ensures
        a@ == ("method"@, cond, value@),
{
    Alternative { field: string_from_chars(&chars_of("method")), cond, value: string_from_chars(&chars_of(value)) }
}

proof fn lemma_plain_concat(a: Seq<AltView>, b: Seq<AltView>)
    requires
        all_plain(a),
        all_plain(b),
    ensures
        all_plain(a + b),
{
    assert forall|i: int| 0 <= i < (a + b).len() implies plain_alt(#[trigger] (a + b)[i]) by {
        if i < a.len() {
            assert((a + b)[i] == a[i]);
        } else {
            assert((a + b)[i] == b[i - a.len()]);
        }
    }
}

impl DefRules {
    /// Generates the restrictions of this policy: exactly one on success.
    pub fn generate(&self) -> (r: Result<Vec<Restriction>, Error>)
        ensures
            r is Ok <==> self.alts() is Some,
            r is Err ==> r == Err::<Vec<Restriction>, Error>(Error::EmptyRestriction),
            r matches Ok(v) ==> v@.len() == 1 && v@[0]@ == self.alts().unwrap() && all_plain(v@[0]@),
        decreases self,
    {
        proof {
            lemma_literals_plain();
        }
        match self {
            DefRules::ReadOnly => {
                let alts = vec![
                    method_alt(runeauth::Condition::BeginsWith, "Get"),
                    method_alt(runeauth::Condition::BeginsWith, "List"),
                ];
                let res = Restriction { alternatives: alts };
                assert(res@ =~= readonly_alts());
                Ok(vec![res])
            },
            DefRules::Pay => {
                let alts = vec![method_alt(runeauth::Condition::Equal, "pay")];
                let res = Restriction { alternatives: alts };
                assert(res@ =~= pay_alts());
                Ok(vec![res])
            },
            DefRules::Add(rules) => {
                let mut acc: Vec<Alternative> = Vec::new();
                let n = rules.len();
                let mut i: usize = 0;
                while i < n
                    invariant
                        *self == DefRules::Add(*rules),
                        n == rules@.len(),
                        i <= n,
                        merged_alts(rules@.subrange(0, i as int)) == Some(acc@.map_values(|a: Alternative| a@)),
                        all_plain(acc@.map_values(|a: Alternative| a@)),
                    decreases n - i,
                {
                    let ghost before = acc@.map_values(|a: Alternative| a@);
                    proof {
                        let s = rules@.subrange(0, i + 1);
                        assert(s.drop_last() =~= rules@.subrange(0, i as int));
                        assert(s[s.len() - 1] == rules@[i as int]);
                    }
                    proof {
                        vstd::std_specs::vec::axiom_vec_index_decreases(*rules, i as int);
                        assert(decreases_to!(*self => rules[i as int]));
                    }
                    let generated = rules[i].generate();
                    match generated {
                        Err(e) => {
                            proof {
                                let s = rules@.subrange(0, i + 1);
                                assert(rules[i as int].alts() is None);
                                assert(merged_alts(s) is None) by {
                                    assert(s[s.len() - 1] == rules@[i as int]);
                                    assert(s.drop_last() =~= rules@.subrange(0, i as int));
                                }
                                lemma_merged_none_extends(rules@, i as int + 1);
                                assert(rules@.subrange(0, n as int) =~= rules@);
                                assert(merged_alts(rules@) is None);
                                assert(self.alts() is None);
                            }
                            return Err(e);
                        },
                        Ok(v) => {
                            let mut v = v;
                            let first = v.remove(0);
                            let mut part = first.alternatives;
                            proof {
                                lemma_plain_concat(before, part@.map_values(|a: Alternative| a@));
                            }
                            acc.append(&mut part);
                            assert(acc@.map_values(|a: Alternative| a@) =~= before + first@);
                            assert(merged_alts(rules@.subrange(0, i + 1)) == Some(before + first@)) by {
                                let s = rules@.subrange(0, i + 1);
                                assert(s[s.len() - 1] == rules@[i as int]);
                                assert(s.drop_last() =~= rules@.subrange(0, i as int));
                            }
                        },
                    }
                    i = i + 1;
                }
                assert(rules@.subrange(0, n as int) =~= rules@);
                if acc.len() == 0 {
                    return Err(Error::EmptyRestriction);
                }
                let res = Restriction { alternatives: acc };
                Ok(vec![res])
            },
        }
    }
}

/// Once a prefix fails to generate, every longer prefix does.
proof fn lemma_merged_none_extends(rules: Seq<DefRules>, k: int)
    requires
        0 <= k <= rules.len(),
        merged_alts(rules.subrange(0, k)) is None,
    ensures
        merged_alts(rules) is None,
    decreases rules.len() - k,
{
    if k < rules.len() {
        let s = rules.subrange(0, k + 1);
        assert(s.drop_last() =~= rules.subrange(0, k));
        lemma_merged_none_extends(rules, k + 1);
    } else {
        assert(rules.subrange(0, k) =~= rules);
    }
}

} // verus!

verus! {

/// Whether every policy of a list generates.
pub open spec fn all_generate(ps: Seq<DefRules>) -> bool {
    forall|i: int| 0 <= i < ps.len() ==> (#[trigger] ps[i]).alts() is Some
}

/// The texts of the restrictions that a list of policies generates, in order.
pub open spec fn carved_texts(ps: Seq<DefRules>) -> Seq<Seq<char>> {
    ps.map_values(|p: DefRules| restriction_text(p.alts().unwrap()))
}

/// Produces narrower runes from existing ones.
pub struct RuneFactory;

impl RuneFactory {
    /// Appends the restrictions that `append` generates, in order, to a copy
    /// of `origin` and returns the copy's encoding. Fails with the first
    /// generation error; `origin` is left as it is.
    pub fn carve(origin: &runeauth::Rune, append: &[DefRules]) -> (r: Result<String, Error>)
        ensures
            r is Ok <==> all_generate(append@),
            r is Err ==> r == Err::<String, Error>(Error::EmptyRestriction),
            r matches Ok(s) ==> s@ == token(
                absorb_texts(rune_authcode(*origin), rune_size(*origin), carved_texts(append@)).0,
                rune_restrictions(*origin) + carved_texts(append@),
            ),
            append@.len() == 0 ==> (r matches Ok(s) && s@ == token(rune_authcode(*origin), rune_restrictions(*origin))),
    {
        let n = append.len();
        let mut generated: Vec<Restriction> = Vec::new();
        let mut i: usize = 0;
        while i < n
            invariant
                n == append@.len(),
                i <= n,
                generated@.len() == i,
                forall|j: int| 0 <= j < i ==> (#[trigger] append@[j]).alts() == Some(generated@[j]@),
                forall|j: int| 0 <= j < i ==> all_plain(#[trigger] generated@[j]@),
            decreases n - i,
        {
            match append[i].generate() {
                Err(e) => {
                    assert(!all_generate(append@)) by {
                        assert(append@[i as int].alts() is None);
                    }
                    return Err(e);
                },
                Ok(v) => {
                    let mut v = v;
                    generated.push(v.remove(0));
                },
            }
            i = i + 1;
        }
        let ghost texts = carved_texts(append@);
        let mut carved = rune_clone(origin);
        let mut k: usize = 0;
        while k < n
            invariant
                n == append@.len(),
                k <= n,
                generated@.len() == n,
                texts == carved_texts(append@),
                forall|j: int| 0 <= j < n ==> (#[trigger] append@[j]).alts() == Some(generated@[j]@),
                forall|j: int| 0 <= j < n ==> all_plain(#[trigger] generated@[j]@),
                rune_restrictions(carved) == rune_restrictions(*origin) + texts.subrange(0, k as int),
                (rune_authcode(carved), rune_size(carved))
                    == absorb_texts(rune_authcode(*origin), rune_size(*origin), texts.subrange(0, k as int)),
            decreases n - k,
        {
            let text = string_from_chars(&generated[k].encode());
            proof {
                let alts = generated@[k as int]@;
                assert(all_plain(alts));
                assert(alts.len() > 0) by {
                    assert(append@[k as int].alts() == Some(alts));
                }
                assert(texts[k as int] == text@);
            }
            rune_append(&mut carved, text.as_str());
            assert(texts.subrange(0, k + 1) =~= texts.subrange(0, k as int).push(text@));
            assert(texts.subrange(0, k + 1).drop_last() =~= texts.subrange(0, k as int));
            k = k + 1;
        }
        assert(texts.subrange(0, n as int) =~= texts);
        assert(rune_restrictions(*origin) + texts.subrange(0, 0) =~= rune_restrictions(*origin));
        let s = rune_to_base64(&carved);
        Ok(s)
    }
}

/// The labels of a list of policies joined by `|`, skipping empty ones at
/// the start.
pub open spec fn joined_labels(rules: Seq<DefRules>) -> Seq<char>
    decreases rules,
{
    if rules.len() == 0 {
        Seq::empty()
    } else {
        let head = joined_labels(rules.drop_last());
        let last = match rules[rules.len() - 1] {
            DefRules::ReadOnly => "readonly"@,
            DefRules::Pay => "pay"@,
            DefRules::Add(inner) => joined_labels(inner@),
        };
        if head.len() == 0 {
            last
        } else {
            head.push('|') + last
        }
    }
}

impl DefRules {
    /// The label of a policy, for audit logs: "readonly", "pay", or the labels
    /// of an `Add`'s policies in order, joined by `|`.
    pub open spec fn label(self) -> Seq<char> {
        match self {
            DefRules::ReadOnly => "readonly"@,
            DefRules::Pay => "pay"@,
            DefRules::Add(rules) => joined_labels(rules@),
        }
    }

    fn label_chars(&self) -> (r: Vec<char>)
        ensures
            r@ == self.label(),
        decreases self,
    {
        match self {
            DefRules::ReadOnly => chars_of("readonly"),
            DefRules::Pay => chars_of("pay"),
            DefRules::Add(rules) => {
                let mut acc: Vec<char> = Vec::new();
                let n = rules.len();
                let mut i: usize = 0;
                while i < n
                    invariant
                        *self == DefRules::Add(*rules),
                        n == rules@.len(),
                        i <= n,
                        acc@ == joined_labels(rules@.subrange(0, i as int)),
                    decreases n - i,
                {
                    proof {
                        vstd::std_specs::vec::axiom_vec_index_decreases(*rules, i as int);
                        assert(self->Add_0 == *rules);
                    }
                    proof {
                        let s = rules@.subrange(0, i + 1);
                        assert(s.drop_last() =~= rules@.subrange(0, i as int));
                        assert(s[s.len() - 1] == rules@[i as int]);
                    }
                    let mut l = rules[i].label_chars();
                    if acc.len() > 0 {
                        acc.push('|');
                    }
                    acc.append(&mut l);
                    i = i + 1;
                }
                assert(rules@.subrange(0, n as int) =~= rules@);
                acc
            },
        }
    }

    /// The label of this policy (see `label`).
    pub fn to_string(&self) -> (s: String)
        ensures
            s@ == self.label(),
    {
        string_from_chars(&self.label_chars())
    }
}

/// A source of restrictions.
pub trait Restrictor {
    /// The restrictions this source stands for.
    fn generate(&self) -> Result<Vec<Restriction>, Error>;
}

impl Restrictor for DefRules {
    fn generate(&self) -> Result<Vec<Restriction>, Error> {
        DefRules::generate(self)
    }
}

} // verus!
