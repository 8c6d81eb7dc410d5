use crate::error::Error;
use crate::restriction::{condition_met, cond_holds, AltView, Alternative, Restriction};
use crate::text::{decimal, decimal_chars, same_text, string_from_chars};
use vstd::prelude::*;

verus! {

/// The facts of one call that a rune is checked against.
#[derive(Debug, Clone)]
pub struct Context {
    /// The RPC method called.
    pub method: String,
    /// The caller's public key.
    pub pubkey: String,
    /// The unique id of the request.
    pub unique_id: String,
    /// Seconds since the Unix epoch; negative before it.
    pub time: i64,
}

/// The value of `field` in context `ctx`; `None` when the timestamp lies
/// before the epoch and `time` is asked for. Unknown fields resolve to the
/// empty string, which a `Missing` test cannot tell from an empty value.
pub open spec fn resolve(ctx: Context, field: Seq<char>) -> Option<Seq<char>> {
    if field.len() == 0 {
        Some(ctx.unique_id@)
    } else if field == "method"@ {
        Some(ctx.method@)
    } else if field == "pubkey"@ {
        Some(ctx.pubkey@)
    } else if field == "time"@ {
        if ctx.time < 0 {
            None
        } else {
            Some(decimal(ctx.time as nat))
        }
    } else {
        Some(Seq::empty())
    }
}

/// Whether `ctx` meets one alternative (a comment always does).
pub open spec fn alt_met(ctx: Context, a: AltView) -> bool {
    a.1 is Comment || (resolve(ctx, a.0) matches Some(v) && cond_holds(a.1, v, a.2))
}

/// Whether `ctx` meets a restriction: some alternative is met.
pub open spec fn restriction_met(ctx: Context, alts: Seq<AltView>) -> bool {
    exists|i: int| 0 <= i < alts.len() && alt_met(ctx, #[trigger] alts[i])
}

/// Whether `ctx` meets every restriction of a list.
pub open spec fn authorizes(ctx: Context, rs: Seq<Seq<AltView>>) -> bool {
    forall|i: int| 0 <= i < rs.len() ==> restriction_met(ctx, #[trigger] rs[i])
}

/// The views of a list of restrictions.
pub open spec fn views(rs: Seq<Restriction>) -> Seq<Seq<AltView>> {
    rs.map_values(|r: Restriction| r@)
}

impl Context {
    /// Resolves `field` to the value it has in this context.
    pub fn field_value(&self, field: &String) -> (r: Result<String, Error>)
        ensures
            r is Err <==> resolve(*self, field@) is None,
            r is Err ==> r == Err::<String, Error>(Error::Clock),
            r matches Ok(v) ==> resolve(*self, field@) == Some(v@),
    {
        proof {
            reveal_strlit("method");
            reveal_strlit("pubkey");
            reveal_strlit("time");
        }
        if field.as_str().unicode_len() == 0 {
            Ok(self.unique_id.clone())
        } else if same_text(field.as_str(), "method") {
            Ok(self.method.clone())
        } else if same_text(field.as_str(), "pubkey") {
            Ok(self.pubkey.clone())
        } else if same_text(field.as_str(), "time") {
            if self.time < 0 {
                Err(Error::Clock)
            } else {
                Ok(string_from_chars(&decimal_chars(self.time as u64)))
            }
        } else {
            Ok(String::new())
        }
    }

    /// Checks one alternative against this context: `Ok` when it is met,
    /// `Clock` when its field is `time` and the timestamp predates the epoch,
    /// `Mismatch` otherwise.
    pub fn check_alternative(&self, alt: &Alternative) -> (r: Result<(), Error>)
        requires
            alt.wf(),
        ensures
            r is Ok <==> (resolve(*self, alt.field@) matches Some(v) && cond_holds(alt.cond, v, alt.value@)),
            resolve(*self, alt.field@) is None ==> r == Err::<(), Error>(Error::Clock),
            resolve(*self, alt.field@) is Some && r is Err ==> r == Err::<(), Error>(Error::Mismatch),
    {
        let value = self.field_value(&alt.field)?;
        if condition_met(&value, alt) {
            Ok(())
        } else {
            Err(Error::Mismatch)
        }
    }

    /// Whether this context meets a restriction.
    pub fn meets(&self, r: &Restriction) -> (b: bool)
        requires
            forall|i: int| 0 <= i < r.alternatives@.len() ==> (#[trigger] r.alternatives@[i]).wf(),
        ensures
            b == restriction_met(*self, r@),
    {
        let n = r.alternatives.len();
        let mut i: usize = 0;
        while i < n
            invariant
                n == r.alternatives@.len(),
                i <= n,
                forall|j: int| 0 <= j < n ==> (#[trigger] r.alternatives@[j]).wf(),
                forall|j: int| 0 <= j < i ==> !alt_met(*self, #[trigger] r@[j]),
            decreases n - i,
        {
            let alt = &r.alternatives[i];
            assert(r@[i as int] == alt@);
            let comment = match alt.cond {
                runeauth::Condition::Comment => true,
                _ => false,
            };
            if comment || self.check_alternative(alt).is_ok() {
                return true;
            }
            i = i + 1;
        }
        false
    }

    /// Checks every restriction against this context, in order: `Ok` when all
    /// are met, else `Unmet` with the index of the first that is not.
    pub fn are_restrictions_met(&self, restrictions: &Vec<Restriction>) -> (r: Result<(), Error>)
        requires
            forall|k: int, i: int|
                0 <= k < restrictions@.len() && 0 <= i < restrictions@[k].alternatives@.len()
                    ==> (#[trigger] restrictions@[k].alternatives@[i]).wf(),
        ensures
            r is Ok <==> authorizes(*self, views(restrictions@)),
            r matches Err(e) ==> (e matches Error::Unmet(k) && k < restrictions@.len()
                && !restriction_met(*self, restrictions@[k as int]@)
                && authorizes(*self, views(restrictions@.subrange(0, k as int)))),
    {
        let n = restrictions.len();
        let mut k: usize = 0;
        while k < n
            invariant
                n == restrictions@.len(),
                k <= n,
                forall|k: int, i: int|
                    0 <= k < restrictions@.len() && 0 <= i < restrictions@[k].alternatives@.len()
                        ==> (#[trigger] restrictions@[k].alternatives@[i]).wf(),
                authorizes(*self, views(restrictions@.subrange(0, k as int))),
            decreases n - k,
        {
            let met = self.meets(&restrictions[k]);
            if !met {
                assert(!authorizes(*self, views(restrictions@))) by {
                    assert(views(restrictions@)[k as int] == restrictions@[k as int]@);
                }
                return Err(Error::Unmet(k));
            }
            proof {
                let s = views(restrictions@.subrange(0, k + 1));
                let p = views(restrictions@.subrange(0, k as int));
                assert forall|i: int| 0 <= i < s.len() implies restriction_met(*self, #[trigger] s[i]) by {
                    assert(s[i] == restrictions@.subrange(0, k + 1)[i]@);
                    if i < k {
                        assert(s[i] == p[i]);
                    }
                }
            }
            k = k + 1;
        }
        assert(restrictions@.subrange(0, n as int) =~= restrictions@);
        Ok(())
    }
}

} // verus!
