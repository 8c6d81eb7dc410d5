use crate::error::Error;
use crate::text::chars_of;
use runeauth::Check;
use vstd::string::StrSliceExecFns;
use vstd::prelude::*;

verus! {

/// The comparison operators of a rune alternative.
#[verifier::external_type_specification]
pub struct ExCondition(runeauth::Condition);


/// Relies on the derived `Clone` of runeauth's `Condition`, a fieldless enum:
/// the copy is the same operator.
pub assume_specification[ <runeauth::Condition as core::clone::Clone>::clone ](c: &runeauth::Condition) -> (r: runeauth::Condition)
    ensures
        r == *c,
;

/// The mathematical value of an alternative: field name, operator, value.
pub type AltView = (Seq<char>, runeauth::Condition, Seq<char>);

/// The character that stands for an operator in the textual encoding.
pub open spec fn symbol(c: runeauth::Condition) -> char {
    match c {
        runeauth::Condition::Missing => '!',
        runeauth::Condition::Equal => '=',
        runeauth::Condition::NotEqual => '/',
        runeauth::Condition::BeginsWith => '^',
        runeauth::Condition::EndsWith => '$',
        runeauth::Condition::Contains => '~',
        runeauth::Condition::IntLT => '<',
        runeauth::Condition::IntGT => '>',
        runeauth::Condition::LexLT => '{',
        runeauth::Condition::LexGT => '}',
        runeauth::Condition::Comment => '#',
    }
}

/// Verdict of the integer comparisons, which parse the two strings as `i64`
/// and fail when either does not parse.
pub uninterp spec fn ordered_verdict(sym: char, actual: Seq<char>, target: Seq<char>) -> bool;

/// The operators that parse both strings as `i64` and compare them.
pub open spec fn is_ordered(c: runeauth::Condition) -> bool {
    c is IntLT || c is IntGT
}

/// Whether `a` comes strictly before `b` in lexicographic order of code
/// points (a proper prefix comes first).
pub open spec fn lex_lt(a: Seq<char>, b: Seq<char>) -> bool
    decreases a.len(),
{
    if a.len() == 0 {
        b.len() > 0
    } else if b.len() == 0 {
        false
    } else if a[0] != b[0] {
        (a[0] as u32) < (b[0] as u32)
    } else {
        lex_lt(a.drop_first(), b.drop_first())
    }
}

/// Whether a resolved field value `actual` meets operator `c` with `target`.
pub open spec fn cond_holds(c: runeauth::Condition, actual: Seq<char>, target: Seq<char>) -> bool {
    match c {
        runeauth::Condition::Missing => actual.len() == 0,
        runeauth::Condition::Equal => actual == target,
        runeauth::Condition::NotEqual => actual != target,
        runeauth::Condition::BeginsWith => target.is_prefix_of(actual),
        runeauth::Condition::EndsWith => target.is_suffix_of(actual),
        runeauth::Condition::Contains => exists|i: int|
            0 <= i <= actual.len() - target.len() && #[trigger] actual.subrange(i, i + target.len()) == target,
        runeauth::Condition::LexLT => lex_lt(actual, target),
        runeauth::Condition::LexGT => lex_lt(target, actual),
        runeauth::Condition::Comment => true,
        _ => ordered_verdict(symbol(c), actual, target),
    }
}

/// The punctuation characters that separate a field name from its operator.
pub open spec fn is_punct(c: char) -> bool {
    c == '!' || c == '"' || c == '#' || c == '$' || c == '%' || c == '&' || c == '\''
        || c == '(' || c == ')' || c == '*' || c == '+' || c == ',' || c == '-' || c == '.'
        || c == '/' || c == ':' || c == ';' || c == '?' || c == '<' || c == '=' || c == '>'
        || c == '@' || c == '[' || c == '\\' || c == ']' || c == '^' || c == '`' || c == '{'
        || c == '|' || c == '}' || c == '~'
}

/// A field name that an alternative can carry: non-empty, no punctuation.
pub open spec fn valid_field(f: Seq<char>) -> bool {
    f.len() > 0 && forall|i: int| 0 <= i < f.len() ==> !is_punct(#[trigger] f[i])
}

/// One atomic test of a rune: `field`, operator, `value`.
#[derive(Debug, Clone)]
pub struct Alternative {
    pub field: String,
    pub cond: runeauth::Condition,
    pub value: String,
}

impl View for Alternative {
    type V = AltView;

    open spec fn view(&self) -> AltView {
        (self.field@, self.cond, self.value@)
    }
}

impl Alternative {
    /// Well-formed: a valid field name, or the empty field of a unique id.
    pub open spec fn wf(&self) -> bool {
        alt_wf(self@)
    }
}

/// Relies on runeauth's `Alternative::new`, which accepts every well-formed
/// alternative, and on `ConditionChecker::check_alternative`, which compares
/// `actual` with the alternative's value under its operator (`String`'s order,
/// on UTF-8 bytes, is the order of code points).
#[verifier::external_body]
pub(crate) fn condition_met(actual: &String, alt: &Alternative) -> (r: bool)
    requires
        alt.wf(),
    ensures
        r == cond_holds(alt.cond, actual@, alt.value@),
        is_ordered(alt.cond) ==> r == ordered_verdict(symbol(alt.cond), actual@, alt.value@),
{
    match runeauth::Alternative::new(alt.field.clone(), alt.cond.clone(), alt.value.clone(), true) {
        Ok(a) => runeauth::ConditionChecker { value: actual.clone() }.check_alternative(&a).is_ok(),
        Err(_) => false,
    }
}

} // verus!

verus! {

/// Whether a character is escaped with a backslash inside a value.
pub open spec fn needs_escape(c: char) -> bool {
    c == '\\' || c == '|' || c == '&'
}

/// A value as it stands in the textual encoding.
pub open spec fn escape(s: Seq<char>) -> Seq<char>
    decreases s.len(),
{
    if s.len() == 0 {
        seq![]
    } else if needs_escape(s.last()) {
        escape(s.drop_last()) + seq!['\\', s.last()]
    } else {
        escape(s.drop_last()).push(s.last())
    }
}

/// An alternative as text: field, operator symbol, escaped value.
pub open spec fn alt_text(a: AltView) -> Seq<char> {
    a.0.push(symbol(a.1)) + escape(a.2)
}

/// A restriction as text: its alternatives joined by `|`.
pub open spec fn restriction_text(alts: Seq<AltView>) -> Seq<char>
    decreases alts.len(),
{
    if alts.len() == 0 {
        seq![]
    } else if alts.len() == 1 {
        alt_text(alts[0])
    } else {
        restriction_text(alts.drop_last()).push('|') + alt_text(alts.last())
    }
}

/// Whether an alternative may stand in a restriction: a valid field name, or
/// the empty field of a unique id compared with `=`.
pub open spec fn alt_wf(a: AltView) -> bool {
    valid_field(a.0) || (a.0.len() == 0 && a.1 is Equal)
}

/// Whether a list of alternatives makes a restriction: non-empty, each one
/// well-formed, and a unique id only as the sole alternative.
pub open spec fn restriction_wf(alts: Seq<AltView>) -> bool {
    &&& alts.len() > 0
    &&& forall|i: int| 0 <= i < alts.len() ==> alt_wf(#[trigger] alts[i])
    &&& alts.len() > 1 ==> alts[0].0.len() > 0
}

/// The symbol of an operator (see `symbol`).
pub fn symbol_char(c: &runeauth::Condition) -> (r: char)
    ensures
        r == symbol(*c),
{
    match c {
        runeauth::Condition::Missing => '!',
        runeauth::Condition::Equal => '=',
        runeauth::Condition::NotEqual => '/',
        runeauth::Condition::BeginsWith => '^',
        runeauth::Condition::EndsWith => '$',
        runeauth::Condition::Contains => '~',
        runeauth::Condition::IntLT => '<',
        runeauth::Condition::IntGT => '>',
        runeauth::Condition::LexLT => '{',
        runeauth::Condition::LexGT => '}',
        runeauth::Condition::Comment => '#',
    }
}

/// Whether `c` is one of the punctuation characters.
pub fn is_punct_char(c: char) -> (r: bool)
    ensures
        r == is_punct(c),
{
    c == '!' || c == '"' || c == '#' || c == '$' || c == '%' || c == '&' || c == '\''
        || c == '(' || c == ')' || c == '*' || c == '+' || c == ',' || c == '-' || c == '.'
        || c == '/' || c == ':' || c == ';' || c == '?' || c == '<' || c == '=' || c == '>'
        || c == '@' || c == '[' || c == '\\' || c == ']' || c == '^' || c == '`' || c == '{'
        || c == '|' || c == '}' || c == '~'
}

/// Whether `f` is a valid field name.
pub fn is_valid_field(f: &str) -> (r: bool)
    ensures
        r == valid_field(f@),
{
    let n = f.unicode_len();
    if n == 0 {
        return false;
    }
    let mut i: usize = 0;
    while i < n
        invariant
            n == f@.len(),
            i <= n,
            forall|j: int| 0 <= j < i ==> !is_punct(#[trigger] f@[j]),
        decreases n - i,
    {
        if is_punct_char(f.get_char(i)) {
            return false;
        }
        i = i + 1;
    }
    true
}

impl Alternative {
    /// Builds an alternative on a named field (the empty field of a unique id
    /// is only made through `Rune` creation).
    pub fn new(field: String, cond: runeauth::Condition, value: String) -> (r: Result<Alternative, Error>)
        ensures
            r is Ok <==> valid_field(field@),
            r is Err ==> r == Err::<Alternative, Error>(Error::InvalidField),
            r matches Ok(a) ==> a@ == (field@, cond, value@),
    {
        if is_valid_field(field.as_str()) {
            Ok(Alternative { field, cond, value })
        } else {
            Err(Error::InvalidField)
        }
    }

    /// The textual encoding, `field`, operator symbol, escaped value.
    pub fn encode(&self) -> (r: Vec<char>)
        ensures
            r@ == alt_text(self@),
    {
        let mut out = chars_of(self.field.as_str());
        out.push(symbol_char(&self.cond));
        let value = chars_of(self.value.as_str());
        let ghost head = out@;
        let mut i: usize = 0;
        while i < value.len()
            invariant
                value@ == self.value@,
                i <= value.len(),
                out@ == head + escape(value@.subrange(0, i as int)),
            decreases value.len() - i,
        {
            let c = value[i];
            proof {
                let s = value@.subrange(0, i + 1);
                assert(s.drop_last() =~= value@.subrange(0, i as int));
                assert(s.last() == c);
            }
            if c == '\\' || c == '|' || c == '&' {
                out.push('\\');
            }
            out.push(c);
            proof {
                let s = value@.subrange(0, i + 1);
                assert(out@ =~= head + escape(s));
            }
            i = i + 1;
        }
        assert(value@.subrange(0, value@.len() as int) =~= value@);
        out
    }
}

/// A disjunction of alternatives: met when any of them is met.
#[derive(Debug, Clone)]
pub struct Restriction {
    pub alternatives: Vec<Alternative>,
}

impl View for Restriction {
    type V = Seq<AltView>;

    open spec fn view(&self) -> Seq<AltView> {
        self.alternatives@.map_values(|a: Alternative| a@)
    }
}

impl Restriction {
    /// Builds a restriction from its alternatives; there must be at least one,
    /// and a unique id must stand alone.
    pub fn new(alternatives: Vec<Alternative>) -> (r: Result<Restriction, Error>)
        requires
            forall|i: int| 0 <= i < alternatives@.len() ==> alt_wf(#[trigger] alternatives@[i]@),
        ensures
            r is Ok <==> restriction_wf(alternatives@.map_values(|a: Alternative| a@)),
            alternatives@.len() == 0 ==> r == Err::<Restriction, Error>(Error::EmptyRestriction),
            alternatives@.len() > 0 && r is Err ==> r == Err::<Restriction, Error>(Error::IdNotAlone),
            r matches Ok(res) ==> res.alternatives@ == alternatives@,
    {
        let ghost v = alternatives@.map_values(|a: Alternative| a@);
        if alternatives.len() == 0 {
            return Err(Error::EmptyRestriction);
        }
        if alternatives.len() > 1 && alternatives[0].field.as_str().unicode_len() == 0 {
            return Err(Error::IdNotAlone);
        }
        assert(forall|i: int| 0 <= i < v.len() ==> #[trigger] v[i] == alternatives@[i]@);
        Ok(Restriction { alternatives })
    }

    /// The textual encoding: the alternatives joined by `|`.
    pub fn encode(&self) -> (r: Vec<char>)
        ensures
            r@ == restriction_text(self@),
    {
        let mut out: Vec<char> = Vec::new();
        let n = self.alternatives.len();
        let mut i: usize = 0;
        while i < n
            invariant
                n == self.alternatives@.len(),
                i <= n,
                out@ == restriction_text(self@.subrange(0, i as int)),
            decreases n - i,
        {
            let mut t = self.alternatives[i].encode();
            proof {
                let s = self@.subrange(0, i + 1);
                assert(s.drop_last() =~= self@.subrange(0, i as int));
                assert(s.last() == self.alternatives@[i as int]@);
            }
            if i > 0 {
                out.push('|');
            }
            let ghost before = out@;
            out.append(&mut t);
            proof {
                let s = self@.subrange(0, i + 1);
                assert(out@ =~= restriction_text(s));
            }
            i = i + 1;
        }
        assert(self@.subrange(0, n as int) =~= self@);
        out
    }
}

} // verus!

verus! {

/// Whether every character of `s` is ASCII.
pub open spec fn is_ascii(s: Seq<char>) -> bool {
    forall|i: int| 0 <= i < s.len() ==> (#[trigger] s[i] as u32) < 128
}

/// An alternative whose text a rune takes back unchanged: a valid field name
/// and ASCII field and value.
pub open spec fn plain_alt(a: AltView) -> bool {
    valid_field(a.0) && is_ascii(a.0) && is_ascii(a.2)
}

/// Whether every alternative of a list is plain.
pub open spec fn all_plain(alts: Seq<AltView>) -> bool {
    forall|i: int| 0 <= i < alts.len() ==> plain_alt(#[trigger] alts[i])
}

} // verus!
