//! Effects and transitions that a clip can carry.

use crate::entropy::{fresh_uuid, is_uuid_text};
use crate::text::{lemma_lex_lt_total, lemma_lex_lt_transitive, lex_lt};
use crate::text;
use crate::time::TimeSpan;
use vstd::prelude::*;
use vstd::string::*;

verus! {

/// What an effect changes in the picture.
#[derive(Debug, Clone, Copy, PartialEq, Eq, Structural, Hash)]
pub enum EffectType {
    Brightness,
    Contrast,
    Saturation,
    Hue,
    Grayscale,
}

/// The effect type that a lower-case name stands for, if any.
pub open spec fn effect_type_named(name: Seq<char>) -> Option<EffectType> {
    if name == "brightness"@ {
        Some(EffectType::Brightness)
    } else if name == "contrast"@ {
        Some(EffectType::Contrast)
    } else if name == "saturation"@ {
        Some(EffectType::Saturation)
    } else if name == "hue"@ {
        Some(EffectType::Hue)
    } else if name == "grayscale"@ {
        Some(EffectType::Grayscale)
    } else {
        None
    }
}

impl EffectType {
    /// Reads an effect type from its lower-case name.
    pub fn from_name(name: &str) -> (r: Option<EffectType>)
        ensures
            r == effect_type_named(name@),
    {
        if text::equal(name, "brightness") {
            Some(EffectType::Brightness)
        } else if text::equal(name, "contrast") {
            Some(EffectType::Contrast)
        } else if text::equal(name, "saturation") {
            Some(EffectType::Saturation)
        } else if text::equal(name, "hue") {
            Some(EffectType::Hue)
        } else if text::equal(name, "grayscale") {
            Some(EffectType::Grayscale)
        } else {
            None
        }
    }
}

/// One named setting of an effect.
///
/// `value` holds the bit pattern of a double-precision number, so that a
/// setting is carried around exactly as it was given.
#[derive(Debug, PartialEq, Eq)]
pub struct EffectParameter {
    pub name: String,
    pub value: u64,
}

/// An [`EffectParameter`] as mathematical values.
pub struct EffectParameterView {
    pub name: Seq<char>,
    pub value: u64,
}

impl View for EffectParameter {
    type V = EffectParameterView;

    open spec fn view(&self) -> EffectParameterView {
        EffectParameterView { name: self.name@, value: self.value }
    }
}

impl Clone for EffectParameter {
    fn clone(&self) -> (r: Self)
        ensures
            r@ == self@,
    {
        EffectParameter { name: self.name.clone(), value: self.value }
    }
}

/// The views of a run of parameters, in order.
pub open spec fn parameter_views(parameters: Seq<EffectParameter>) -> Seq<EffectParameterView> {
    parameters.map_values(|p: EffectParameter| p@)
}

/// Whether the parameters stand in the order of their names. No name then
/// stands twice, so that the run is a mapping from names to values, and
/// each mapping is written in one way only.
pub open spec fn ordered_by_name(parameters: Seq<EffectParameterView>) -> bool {
    forall|i: int, j: int|
        0 <= i < j < parameters.len() ==> lex_lt(
            (#[trigger] parameters[i]).name,
            (#[trigger] parameters[j]).name,
        )
}

/// The number of parameters at the front of the run whose names come before
/// `name`.
pub open spec fn rank(parameters: Seq<EffectParameterView>, name: Seq<char>) -> nat
    decreases parameters.len(),
{
    if parameters.len() == 0 || !lex_lt(parameters[0].name, name) {
        0
    } else {
        1 + rank(parameters.drop_first(), name)
    }
}

/// The run with `parameter` in its place: in place of the parameter of its
/// name where one stands at its rank, else put in there.
pub open spec fn with_parameter(
    parameters: Seq<EffectParameterView>,
    parameter: EffectParameterView,
) -> Seq<EffectParameterView> {
    let at = rank(parameters, parameter.name) as int;
    if at < parameters.len() && parameters[at].name == parameter.name {
        parameters.update(at, parameter)
    } else {
        parameters.insert(at, parameter)
    }
}

/// The rank of a name is where the names before it end.
pub proof fn lemma_rank(parameters: Seq<EffectParameterView>, name: Seq<char>)
    ensures
        rank(parameters, name) <= parameters.len(),
        forall|j: int|
            0 <= j < rank(parameters, name) ==> lex_lt((#[trigger] parameters[j]).name, name),
        rank(parameters, name) < parameters.len() ==> !lex_lt(
            parameters[rank(parameters, name) as int].name,
            name,
        ),
    decreases parameters.len(),
{
    if !(parameters.len() == 0 || !lex_lt(parameters[0].name, name)) {
        let rest = parameters.drop_first();
        lemma_rank(rest, name);
        assert forall|j: int| 0 <= j < rank(parameters, name) implies lex_lt(
            (#[trigger] parameters[j]).name,
            name,
        ) by {
            if j > 0 {
                assert(parameters[j] == rest[j - 1]);
            }
        }
    }
}

/// Where the names before `name` end at `i`, the rank of `name` is `i`.
pub proof fn lemma_rank_is(parameters: Seq<EffectParameterView>, name: Seq<char>, i: int)
    requires
        0 <= i <= parameters.len(),
        forall|j: int| 0 <= j < i ==> lex_lt((#[trigger] parameters[j]).name, name),
        i < parameters.len() ==> !lex_lt(parameters[i].name, name),
    ensures
        rank(parameters, name) == i,
    decreases i,
{
    if i > 0 {
        let rest = parameters.drop_first();
        assert(lex_lt(parameters[0].name, name));
        assert forall|j: int| 0 <= j < i - 1 implies lex_lt((#[trigger] rest[j]).name, name) by {
            assert(rest[j] == parameters[j + 1]);
        }
        lemma_rank_is(rest, name, i - 1);
    }
}

/// Putting a parameter in its place keeps the order of the names. The run
/// then holds the parameter, and the others as they were.
pub proof fn lemma_with_parameter_ordered(
    parameters: Seq<EffectParameterView>,
    parameter: EffectParameterView,
)
    requires
        ordered_by_name(parameters),
    ensures
        ordered_by_name(with_parameter(parameters, parameter)),
        with_parameter(parameters, parameter)[rank(parameters, parameter.name) as int]
            == parameter,
{
    let name = parameter.name;
    let at = rank(parameters, name) as int;
    let after = with_parameter(parameters, parameter);
    lemma_rank(parameters, name);
    if !(at < parameters.len() && parameters[at].name == name) {
        assert forall|i: int, j: int| 0 <= i < j < after.len() implies lex_lt(
            (#[trigger] after[i]).name,
            (#[trigger] after[j]).name,
        ) by {
            if j == at {
                assert(after[i] == parameters[i]);
            } else if i == at {
                assert(after[j] == parameters[j - 1]);
                lemma_lex_lt_total(parameters[at].name, name);
                if j - 1 > at {
                    assert(lex_lt(parameters[at].name, parameters[j - 1].name));
                    lemma_lex_lt_transitive(name, parameters[at].name, parameters[j - 1].name);
                }
            } else if i < at && j > at {
                assert(after[i] == parameters[i]);
                assert(after[j] == parameters[j - 1]);
                assert(lex_lt(parameters[i].name, parameters[j - 1].name));
            } else if j < at {
                assert(after[i] == parameters[i]);
                assert(after[j] == parameters[j]);
            } else {
                assert(after[i] == parameters[i - 1]);
                assert(after[j] == parameters[j - 1]);
                assert(lex_lt(parameters[i - 1].name, parameters[j - 1].name));
            }
        }
    } else {
        assert forall|i: int, j: int| 0 <= i < j < after.len() implies lex_lt(
            (#[trigger] after[i]).name,
            (#[trigger] after[j]).name,
        ) by {
            assert(after[i].name == parameters[i].name);
            assert(after[j].name == parameters[j].name);
        }
    }
}

/// An effect laid over a stretch of a clip.
///
/// The parameters are a mapping from names to values, kept in the order of
/// the names: see [`Effect::set_parameter`].
#[derive(Debug, PartialEq, Eq)]
pub struct Effect {
    pub id: String,
    pub effect_type: EffectType,
    pub start_time: TimeSpan,
    pub end_time: TimeSpan,
    pub parameters: Vec<EffectParameter>,
}

/// An [`Effect`] as mathematical values: times in nanoseconds.
pub struct EffectView {
    pub id: Seq<char>,
    pub effect_type: EffectType,
    pub start_time: nat,
    pub end_time: nat,
    pub parameters: Seq<EffectParameterView>,
}

impl View for Effect {
    type V = EffectView;

    open spec fn view(&self) -> EffectView {
        EffectView {
            id: self.id@,
            effect_type: self.effect_type,
            start_time: self.start_time@,
            end_time: self.end_time@,
            parameters: parameter_views(self.parameters@),
        }
    }
}

impl Clone for Effect {
    fn clone(&self) -> (r: Self)
        ensures
            r@ == self@,
    {
        let parameters = self.parameters.clone();
        assert(parameter_views(parameters@) =~= parameter_views(self.parameters@));
        Effect {
            id: self.id.clone(),
            effect_type: self.effect_type,
            start_time: self.start_time,
            end_time: self.end_time,
            parameters,
        }
    }
}

impl EffectView {
    /// Whether the effect is as the data model wants it: its parameters
    /// stand in the order of their names, no name twice.
    pub open spec fn well_formed(self) -> bool {
        ordered_by_name(self.parameters)
    }

    /// The effect with the parameter `name` holding `value`.
    pub open spec fn with_parameter(self, name: Seq<char>, value: u64) -> EffectView {
        EffectView {
            parameters: with_parameter(self.parameters, EffectParameterView { name, value }),
            ..self
        }
    }

    /// The effect that [`Effect::with_token`] builds.
    pub open spec fn fresh(token: Seq<char>, effect_type: EffectType, value: u64) -> EffectView {
        EffectView {
            id: "effect-"@ + token,
            effect_type,
            start_time: 0,
            end_time: 0,
            parameters: seq![EffectParameterView { name: "value"@, value }],
        }
    }
}

impl Effect {
    /// An effect of the given type under a random id: `effect-` followed by
    /// a new UUID. See [`Effect::with_token`].
    pub fn new(effect_type: EffectType, value: u64) -> (r: Effect)
        ensures
            exists|token: Seq<char>|
                is_uuid_text(token) && r@ == EffectView::fresh(token, effect_type, value),
            r@.well_formed(),
    {
        let token = fresh_uuid();
        Effect::with_token(token.as_str(), effect_type, value)
    }

    /// An effect of the given type whose id is `effect-` followed by `token`.
    /// Its single parameter, named `value`, holds `value`; both ends of its
    /// stretch are at zero.
    pub fn with_token(token: &str, effect_type: EffectType, value: u64) -> (r: Effect)
        ensures
            r@ == EffectView::fresh(token@, effect_type, value),
            r@.well_formed(),
    {
        let mut parameters: Vec<EffectParameter> = Vec::new();
        parameters.push(EffectParameter { name: String::from_str("value"), value });
        assert(parameter_views(parameters@) =~= seq![
            EffectParameterView { name: "value"@, value },
        ]);
        Effect {
            id: text::joined("effect-", token),
            effect_type,
            start_time: TimeSpan::zero(),
            end_time: TimeSpan::zero(),
            parameters,
        }
    }

    /// Where the names that come before `name` end among the parameters.
    fn place_of(&self, name: &str) -> (r: usize)
        ensures
            r == rank(self@.parameters, name@),
            r <= self.parameters.len(),
    {
        let mut i: usize = 0;
        while i < self.parameters.len()
            invariant
                i <= self.parameters.len(),
                forall|j: int| 0 <= j < i ==> lex_lt((#[trigger] self@.parameters[j]).name, name@),
            decreases self.parameters.len() - i,
        {
            if !text::precedes(self.parameters[i].name.as_str(), name) {
                proof {
                    lemma_rank_is(self@.parameters, name@, i as int);
                }
                return i;
            }
            i += 1;
        }
        proof {
            lemma_rank_is(self@.parameters, name@, i as int);
        }
        i
    }

    /// Lets the parameter `name` hold `value`: in place of what it held, or
    /// as a new parameter put where its name belongs. Parameters that stand
    /// in the order of their names stay so.
    pub fn set_parameter(&mut self, name: &str, value: u64)
        ensures
            final(self)@ == old(self)@.with_parameter(name@, value),
            old(self)@.well_formed() ==> final(self)@.well_formed(),
    {
        proof {
            if old(self)@.well_formed() {
                lemma_with_parameter_ordered(
                    old(self)@.parameters,
                    EffectParameterView { name: name@, value },
                );
            }
        }
        let at = self.place_of(name);
        let ghost before = self@.parameters;
        let ghost given = EffectParameterView { name: name@, value };
        if at < self.parameters.len() && text::equal(self.parameters[at].name.as_str(), name) {
            self.parameters[at].value = value;
            assert(parameter_views(self.parameters@) =~= before.update(at as int, given));
        } else {
            self.parameters.insert(at, EffectParameter { name: name.to_owned(), value });
            assert(parameter_views(self.parameters@) =~= before.insert(at as int, given));
        }
    }

    /// The value that the parameter `name` holds, if there is such a
    /// parameter.
    pub fn parameter(&self, name: &str) -> (r: Option<u64>)
        ensures
            match r {
                Some(value) => exists|i: int|
                    0 <= i < self@.parameters.len() && (#[trigger] self@.parameters[i]).name
                        == name@ && self@.parameters[i].value == value && forall|j: int|
                        0 <= j < i ==> (#[trigger] self@.parameters[j]).name != name@,
                None => forall|i: int|
                    0 <= i < self@.parameters.len() ==> (#[trigger] self@.parameters[i]).name
                        != name@,
            },
    {
        let mut i: usize = 0;
        while i < self.parameters.len()
            invariant
                i <= self.parameters.len(),
                forall|j: int| 0 <= j < i ==> (#[trigger] self@.parameters[j]).name != name@,
            decreases self.parameters.len() - i,
        {
            if text::equal(self.parameters[i].name.as_str(), name) {
                assert(self@.parameters[i as int].name == name@);
                return Some(self.parameters[i].value);
            }
            i += 1;
        }
        None
    }
}

/// How one clip gives way to the next.
#[derive(Debug, Clone, Copy, PartialEq, Eq, Structural, Hash)]
pub enum TransitionType {
    Fade,
    Wipe,
    Dissolve,
}

/// The transition at the end of a clip.
#[derive(Debug, PartialEq, Eq)]
pub struct Transition {
    pub id: String,
    pub transition_type: TransitionType,
    pub duration: TimeSpan,
}

/// A [`Transition`] as mathematical values.
pub struct TransitionView {
    pub id: Seq<char>,
    pub transition_type: TransitionType,
    pub duration: nat,
}

impl View for Transition {
    type V = TransitionView;

    open spec fn view(&self) -> TransitionView {
        TransitionView {
            id: self.id@,
            transition_type: self.transition_type,
            duration: self.duration@,
        }
    }
}

impl Clone for Transition {
    fn clone(&self) -> (r: Self)
        ensures
            r@ == self@,
    {
        Transition {
            id: self.id.clone(),
            transition_type: self.transition_type,
            duration: self.duration,
        }
    }
}

} // verus!
