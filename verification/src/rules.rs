//! Core data types of the transformation engine: effects, marks, tones, rules and
//! transformations.
use vstd::prelude::*;

verus! {

/// What kind of effect a rule applies.
#[derive(Debug, Clone, Copy, PartialEq, Eq, Structural)]
pub enum EffectType {
    Appending,
    MarkTransformation,
    ToneTransformation,
    Replacing,
}

/// A diacritic mark family index; its number is the `u8` stored in `Rule::effect`.
#[derive(Debug, Clone, Copy, PartialEq, Eq, Structural)]
pub enum Mark {
    NoMark,
    Hat,
    Breve,
    Horn,
    Dash,
    Raw,
}

/// A tone index; its number is the `u8` stored in `Rule::effect`.
#[derive(Debug, Clone, Copy, PartialEq, Eq, Structural)]
pub enum Tone {
    NoTone,
    Grave,
    Acute,
    Hook,
    Tilde,
    Dot,
}

/// The number of a tone (its position in `Tone`).
pub open spec fn tone_num(t: Tone) -> u8 {
    match t {
        Tone::NoTone => 0,
        Tone::Grave => 1,
        Tone::Acute => 2,
        Tone::Hook => 3,
        Tone::Tilde => 4,
        Tone::Dot => 5,
    }
}

/// The tone with number `v`; numbers above 5 mean no tone.
pub open spec fn tone_of(v: u8) -> Tone {
    if v == 1 {
        Tone::Grave
    } else if v == 2 {
        Tone::Acute
    } else if v == 3 {
        Tone::Hook
    } else if v == 4 {
        Tone::Tilde
    } else if v == 5 {
        Tone::Dot
    } else {
        Tone::NoTone
    }
}

/// The number of a mark (its position in `Mark`).
pub open spec fn mark_num(m: Mark) -> u8 {
    match m {
        Mark::NoMark => 0,
        Mark::Hat => 1,
        Mark::Breve => 2,
        Mark::Horn => 3,
        Mark::Dash => 4,
        Mark::Raw => 5,
    }
}

/// The mark with number `v`; numbers above 5 mean no mark.
pub open spec fn mark_of(v: u8) -> Mark {
    if v == 1 {
        Mark::Hat
    } else if v == 2 {
        Mark::Breve
    } else if v == 3 {
        Mark::Horn
    } else if v == 4 {
        Mark::Dash
    } else if v == 5 {
        Mark::Raw
    } else {
        Mark::NoMark
    }
}

impl Tone {
    pub fn from_u8(v: u8) -> (t: Tone)
        ensures
            t == tone_of(v),
    {
        match v {
            1 => Tone::Grave,
            2 => Tone::Acute,
            3 => Tone::Hook,
            4 => Tone::Tilde,
            5 => Tone::Dot,
            _ => Tone::NoTone,
        }
    }

    /// The number of this tone.
    pub fn to_u8(self) -> (v: u8)
        ensures
            v == tone_num(self),
    {
        match self {
            Tone::NoTone => 0,
            Tone::Grave => 1,
            Tone::Acute => 2,
            Tone::Hook => 3,
            Tone::Tilde => 4,
            Tone::Dot => 5,
        }
    }
}

impl Mark {
    /// The number of this mark.
    pub fn to_u8(self) -> (v: u8)
        ensures
            v == mark_num(self),
    {
        match self {
            Mark::NoMark => 0,
            Mark::Hat => 1,
            Mark::Breve => 2,
            Mark::Horn => 3,
            Mark::Dash => 4,
            Mark::Raw => 5,
        }
    }
}

/// The scalar part of a rule.
#[derive(Debug, Clone, Copy, PartialEq, Eq, Structural)]
pub struct RuleHead {
    pub key: char,
    pub effect: u8,
    pub effect_type: EffectType,
    pub effect_on: char,
    pub result: char,
}

/// What a rule means: its scalar part and the scalar parts of the rules it appends.
pub ghost struct RuleV {
    pub head: RuleHead,
    pub appended: Seq<RuleHead>,
}

/// A transformation rule. `'\0'` stands for a virtual (absent) key.
#[derive(Debug)]
pub struct Rule {
    pub key: char,
    /// A tone or mark number, depending on `effect_type`.
    pub effect: u8,
    pub effect_type: EffectType,
    pub effect_on: char,
    pub result: char,
    pub appended_rules: Vec<Rule>,
}

impl Rule {
    pub open spec fn head(&self) -> RuleHead {
        RuleHead {
            key: self.key,
            effect: self.effect,
            effect_type: self.effect_type,
            effect_on: self.effect_on,
            result: self.result,
        }
    }
}

impl View for Rule {
    type V = RuleV;

    open spec fn view(&self) -> RuleV {
        RuleV { head: self.head(), appended: self.appended_rules@.map_values(|r: Rule| r.head()) }
    }
}

/// The rule with the given scalar part and nothing appended.
pub open spec fn plain_rule(h: RuleHead) -> RuleV {
    RuleV { head: h, appended: Seq::empty() }
}

/// The rule of `Default`: virtual key, appending, no effect.
pub open spec fn default_head() -> RuleHead {
    RuleHead {
        key: '\0',
        effect: 0,
        effect_type: EffectType::Appending,
        effect_on: '\0',
        result: '\0',
    }
}

impl Default for Rule {
    fn default() -> (r: Rule)
        ensures
            r@ == plain_rule(default_head()),
    {
        let r = Rule {
            key: '\0',
            effect: 0,
            effect_type: EffectType::Appending,
            effect_on: '\0',
            result: '\0',
            appended_rules: Vec::new(),
        };
        assert(r@.appended =~= Seq::<RuleHead>::empty());
        r
    }
}

impl Rule {
    /// A rule with the given scalar part and nothing appended.
    pub fn from_head(h: RuleHead) -> (r: Rule)
        ensures
            r@ == plain_rule(h),
    {
        let r = Rule {
            key: h.key,
            effect: h.effect,
            effect_type: h.effect_type,
            effect_on: h.effect_on,
            result: h.result,
            appended_rules: Vec::new(),
        };
        assert(r@.appended =~= Seq::<RuleHead>::empty());
        r
    }

    /// The scalar part of this rule.
    pub fn get_head(&self) -> (h: RuleHead)
        ensures
            h == self.head(),
    {
        RuleHead {
            key: self.key,
            effect: self.effect,
            effect_type: self.effect_type,
            effect_on: self.effect_on,
            result: self.result,
        }
    }

    /// A copy of this rule, appended rules included.
    pub fn duplicate(&self) -> (r: Rule)
        ensures
            r@ == self@,
        decreases self,
    {
        let mut app: Vec<Rule> = Vec::new();
        let n = self.appended_rules.len();
        for i in 0..n
            invariant
                n == self.appended_rules@.len(),
                app@.len() == i,
                forall|j: int| 0 <= j < i ==> #[trigger] app@[j].head() == self.appended_rules@[j].head(),
        {
            assert(decreases_to!(self => self.appended_rules));
            let c = self.appended_rules[i].duplicate();
            app.push(c);
        }
        let r = Rule {
            key: self.key,
            effect: self.effect,
            effect_type: self.effect_type,
            effect_on: self.effect_on,
            result: self.result,
            appended_rules: app,
        };
        assert(r@.appended =~= self@.appended);
        r
    }

    pub fn set_tone(&mut self, tone: Tone)
        ensures
            final(self)@ == (RuleV { head: RuleHead { effect: tone_num(tone), ..old(self).head() }, ..old(self)@ }),
    {
        self.effect = tone.to_u8();
        assert(final(self)@.appended =~= old(self)@.appended);
    }

    pub fn set_mark(&mut self, mark: Mark)
        ensures
            final(self)@ == (RuleV { head: RuleHead { effect: mark_num(mark), ..old(self).head() }, ..old(self)@ }),
    {
        self.effect = mark.to_u8();
        assert(final(self)@.appended =~= old(self)@.appended);
    }

    pub fn get_tone(&self) -> (t: Tone)
        ensures
            t == tone_of(self.effect),
    {
        Tone::from_u8(self.effect)
    }

    pub fn get_mark(&self) -> (m: Mark)
        ensures
            m == mark_of(self.effect),
    {
        match self.effect {
            1 => Mark::Hat,
            2 => Mark::Breve,
            3 => Mark::Horn,
            4 => Mark::Dash,
            5 => Mark::Raw,
            _ => Mark::NoMark,
        }
    }
}

/// What a transformation means.
pub ghost struct TransV {
    pub rule: RuleV,
    pub target: Option<u64>,
    pub is_upper_case: bool,
    pub id: u64,
}

/// A single transformation of a composition. `target` names, by its `id`, the transformation of
/// the same composition that this one modifies; ids are unique within a composition.
#[derive(Debug)]
pub struct Transformation {
    pub rule: Rule,
    pub target: Option<u64>,
    pub is_upper_case: bool,
    pub id: u64,
}

impl View for Transformation {
    type V = TransV;

    open spec fn view(&self) -> TransV {
        TransV { rule: self.rule@, target: self.target, is_upper_case: self.is_upper_case, id: self.id }
    }
}

/// The meaning of a sequence of transformations.
pub open spec fn comp_view(c: Seq<Transformation>) -> Seq<TransV> {
    c.map_values(|t: Transformation| t@)
}

impl Transformation {
    /// A new transformation with the given rule, target and identity.
    pub fn new_ref(rule: Rule, target: Option<u64>, is_upper_case: bool, id: u64) -> (t: Transformation)
        ensures
            t@ == (TransV { rule: rule@, target, is_upper_case, id }),
    {
        Transformation { rule, target, is_upper_case, id }
    }

    /// A copy of this transformation.
    pub fn duplicate(&self) -> (t: Transformation)
        ensures
            t@ == self@,
    {
        Transformation {
            rule: self.rule.duplicate(),
            target: self.target,
            is_upper_case: self.is_upper_case,
            id: self.id,
        }
    }
}

/// A copy of a sequence of transformations.
pub fn copy_comp(c: &[Transformation]) -> (r: Vec<Transformation>)
    ensures
        comp_view(r@) == comp_view(c@),
{
    let mut r: Vec<Transformation> = Vec::new();
    for i in 0..c.len()
        invariant
            r@.len() == i,
            comp_view(r@) == comp_view(c@).take(i as int),
    {
        let ghost old_r = r@;
        r.push(c[i].duplicate());
        assert(r@ == old_r.push(r@[i as int]));
        assert(comp_view(r@) =~= comp_view(c@).take(i + 1)) by {
            assert forall|j: int| 0 <= j < i + 1 implies #[trigger] comp_view(r@)[j] == comp_view(c@).take(i + 1)[j] by {
                if j < i {
                    assert(comp_view(old_r)[j] == comp_view(r@)[j]);
                }
            }
        }
    }
    assert(comp_view(c@).take(c@.len() as int) =~= comp_view(c@));
    r
}

} // verus!
