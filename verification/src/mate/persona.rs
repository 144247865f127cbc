//! Named expressions, moods and idle routines of the mate character, with its automatic behaviours.

use vstd::prelude::*;
use crate::strs::str_eq;

verus! {

/// Facial expression of the mate character.
#[derive(Debug, Clone, Copy, PartialEq, Eq)]
pub enum Expression {
    Neutral,
    Happy,
    Sad,
    Angry,
    Sleepy,
    Surprised,
    Curious,
    Playful,
}

impl Expression {
    pub open spec fn spec_name(self) -> Seq<char> {
        match self {
            Expression::Neutral => "neutral"@,
            Expression::Happy => "happy"@,
            Expression::Sad => "sad"@,
            Expression::Angry => "angry"@,
            Expression::Sleepy => "sleepy"@,
            Expression::Surprised => "surprised"@,
            Expression::Curious => "curious"@,
            Expression::Playful => "playful"@,
        }
    }

    pub open spec fn spec_parse(s: Seq<char>) -> Option<Expression> {
        if s == "neutral"@ {
            Some(Expression::Neutral)
        } else if s == "happy"@ {
            Some(Expression::Happy)
        } else if s == "sad"@ {
            Some(Expression::Sad)
        } else if s == "angry"@ {
            Some(Expression::Angry)
        } else if s == "sleepy"@ {
            Some(Expression::Sleepy)
        } else if s == "surprised"@ {
            Some(Expression::Surprised)
        } else if s == "curious"@ {
            Some(Expression::Curious)
        } else if s == "playful"@ {
            Some(Expression::Playful)
        } else {
            None
        }
    }

    pub fn parse(s: &str) -> (r: Option<Self>)
        ensures
            r == Expression::spec_parse(s@),
    {
        if str_eq(s, "neutral") {
            Some(Self::Neutral)
        } else if str_eq(s, "happy") {
            Some(Self::Happy)
        } else if str_eq(s, "sad") {
            Some(Self::Sad)
        } else if str_eq(s, "angry") {
            Some(Self::Angry)
        } else if str_eq(s, "sleepy") {
            Some(Self::Sleepy)
        } else if str_eq(s, "surprised") {
            Some(Self::Surprised)
        } else if str_eq(s, "curious") {
            Some(Self::Curious)
        } else if str_eq(s, "playful") {
            Some(Self::Playful)
        } else {
            None
        }
    }

    pub fn as_str(self) -> (r: &'static str)
        ensures
            r@ == self.spec_name(),
    {
        match self {
            Self::Neutral => "neutral",
            Self::Happy => "happy",
            Self::Sad => "sad",
            Self::Angry => "angry",
            Self::Sleepy => "sleepy",
            Self::Surprised => "surprised",
            Self::Curious => "curious",
            Self::Playful => "playful",
        }
    }
}

/// Naming law: every expression's name parses back to that expression.
pub proof fn lemma_expression_roundtrip(e: Expression)
    ensures
        Expression::spec_parse(e.spec_name()) == Some(e),
{
    reveal_strlit("neutral");
    reveal_strlit("happy");
    reveal_strlit("sad");
    reveal_strlit("angry");
    reveal_strlit("sleepy");
    reveal_strlit("surprised");
    reveal_strlit("curious");
    reveal_strlit("playful");
    let n = "neutral"@;
    let h = "happy"@;
    let sa = "sad"@;
    let a = "angry"@;
    let sl = "sleepy"@;
    let su = "surprised"@;
    let c = "curious"@;
    let p = "playful"@;
    assert(h[0] != n[0]);
    assert(sa[0] != n[0] && sa[0] != h[0]);
    assert(a[0] != n[0] && a[0] != h[0] && a[0] != sa[0]);
    assert(sl[0] != n[0] && sl[0] != h[0] && sl[1] != sa[1] && sl[0] != a[0]);
    assert(su[0] != n[0] && su[0] != h[0] && su[1] != sa[1] && su[0] != a[0] && su[1] != sl[1]);
    assert(c[0] != n[0] && c[0] != h[0] && c[0] != sa[0] && c[0] != a[0] && c[0] != sl[0] && c[0] != su[0]);
    assert(p[0] != n[0] && p[0] != h[0] && p[0] != sa[0] && p[0] != a[0] && p[0] != sl[0] && p[0] != su[0] && p[0] != c[0]);
}

/// Mood of the character; it scales how lively its motion is.
#[derive(Debug, Clone, Copy, PartialEq, Eq)]
pub enum Mood {
    Calm,
    Curious,
    Playful,
    Sleepy,
    Alert,
}

impl Mood {
    pub open spec fn spec_name(self) -> Seq<char> {
        match self {
            Mood::Calm => "calm"@,
            Mood::Curious => "curious"@,
            Mood::Playful => "playful"@,
            Mood::Sleepy => "sleepy"@,
            Mood::Alert => "alert"@,
        }
    }

    pub open spec fn spec_parse(s: Seq<char>) -> Option<Mood> {
        if s == "calm"@ {
            Some(Mood::Calm)
        } else if s == "curious"@ {
            Some(Mood::Curious)
        } else if s == "playful"@ {
            Some(Mood::Playful)
        } else if s == "sleepy"@ {
            Some(Mood::Sleepy)
        } else if s == "alert"@ {
            Some(Mood::Alert)
        } else {
            None
        }
    }

    pub fn parse(s: &str) -> (r: Option<Self>)
        ensures
            r == Mood::spec_parse(s@),
    {
        if str_eq(s, "calm") {
            Some(Self::Calm)
        } else if str_eq(s, "curious") {
            Some(Self::Curious)
        } else if str_eq(s, "playful") {
            Some(Self::Playful)
        } else if str_eq(s, "sleepy") {
            Some(Self::Sleepy)
        } else if str_eq(s, "alert") {
            Some(Self::Alert)
        } else {
            None
        }
    }

    pub fn as_str(self) -> (r: &'static str)
        ensures
            r@ == self.spec_name(),
    {
        match self {
            Self::Calm => "calm",
            Self::Curious => "curious",
            Self::Playful => "playful",
            Self::Sleepy => "sleepy",
            Self::Alert => "alert",
        }
    }
}

/// Naming law: every mood's name parses back to that mood.
pub proof fn lemma_mood_roundtrip(m: Mood)
    ensures
        Mood::spec_parse(m.spec_name()) == Some(m),
{
    reveal_strlit("calm");
    reveal_strlit("curious");
    reveal_strlit("playful");
    reveal_strlit("sleepy");
    reveal_strlit("alert");
    assert("curious"@[1] != "calm"@[1]);
    assert("playful"@[0] != "calm"@[0] && "playful"@[0] != "curious"@[0]);
    assert("sleepy"@[0] != "calm"@[0] && "sleepy"@[0] != "curious"@[0] && "sleepy"@[0] != "playful"@[0]);
    assert("alert"@[0] != "calm"@[0] && "alert"@[0] != "curious"@[0] && "alert"@[0] != "playful"@[0]
        && "alert"@[0] != "sleepy"@[0]);
}

/// Idle choreography the gaze follows when nothing else drives it.
#[derive(Debug, Clone, Copy, PartialEq, Eq)]
pub enum IdleRoutine {
    Drift,
    Orbit,
    Figure8,
    SpiralPole,
    Wander,
}

impl IdleRoutine {
    pub open spec fn spec_name(self) -> Seq<char> {
        match self {
            IdleRoutine::Drift => "drift"@,
            IdleRoutine::Orbit => "orbit"@,
            IdleRoutine::Figure8 => "figure8"@,
            IdleRoutine::SpiralPole => "spiralPole"@,
            IdleRoutine::Wander => "wander"@,
        }
    }

    /// Names accepted on input; `spiral_pole` is an alias of `spiralPole`.
    pub open spec fn spec_parse(s: Seq<char>) -> Option<IdleRoutine> {
        if s == "drift"@ {
            Some(IdleRoutine::Drift)
        } else if s == "orbit"@ {
            Some(IdleRoutine::Orbit)
        } else if s == "figure8"@ {
            Some(IdleRoutine::Figure8)
        } else if s == "spiralPole"@ || s == "spiral_pole"@ {
            Some(IdleRoutine::SpiralPole)
        } else if s == "wander"@ {
            Some(IdleRoutine::Wander)
        } else {
            None
        }
    }

    pub fn parse(s: &str) -> (r: Option<Self>)
        ensures
            r == IdleRoutine::spec_parse(s@),
    {
        if str_eq(s, "drift") {
            Some(Self::Drift)
        } else if str_eq(s, "orbit") {
            Some(Self::Orbit)
        } else if str_eq(s, "figure8") {
            Some(Self::Figure8)
        } else if str_eq(s, "spiralPole") || str_eq(s, "spiral_pole") {
            Some(Self::SpiralPole)
        } else if str_eq(s, "wander") {
            Some(Self::Wander)
        } else {
            None
        }
    }

    pub fn as_str(self) -> (r: &'static str)
        ensures
            r@ == self.spec_name(),
    {
        match self {
            Self::Drift => "drift",
            Self::Orbit => "orbit",
            Self::Figure8 => "figure8",
            Self::SpiralPole => "spiralPole",
            Self::Wander => "wander",
        }
    }
}

/// Naming law: every routine's canonical name parses back to that routine.
pub proof fn lemma_idle_routine_roundtrip(r: IdleRoutine)
    ensures
        IdleRoutine::spec_parse(r.spec_name()) == Some(r),
{
    reveal_strlit("drift");
    reveal_strlit("orbit");
    reveal_strlit("figure8");
    reveal_strlit("spiralPole");
    reveal_strlit("spiral_pole");
    reveal_strlit("wander");
    assert("orbit"@[0] != "drift"@[0]);
    assert("figure8"@[0] != "drift"@[0] && "figure8"@[0] != "orbit"@[0]);
    assert("spiralPole"@[0] != "drift"@[0] && "spiralPole"@[0] != "orbit"@[0] && "spiralPole"@[0] != "figure8"@[0]);
    assert("wander"@[0] != "drift"@[0] && "wander"@[0] != "orbit"@[0] && "wander"@[0] != "figure8"@[0]
        && "wander"@[0] != "spiralPole"@[0] && "wander"@[0] != "spiral_pole"@[0]);
}

/// Automatic behaviours of the character that can be switched on and off.
#[derive(Debug, Clone, Copy)]
pub struct AutoFlags {
    pub breath: bool,
    pub blink: bool,
    pub saccade: bool,
    pub tremor: bool,
}

impl Default for AutoFlags {
    /// Breathing, blinking and saccades on; tremor off.
    fn default() -> (r: Self)
        ensures
            r.breath && r.blink && r.saccade && !r.tremor,
    {
        AutoFlags { breath: true, blink: true, saccade: true, tremor: false }
    }
}

impl Expression {
    /// Face colour that goes with the expression.
    pub open spec fn spec_tint(self) -> [u8; 3] {
        match self {
            Expression::Neutral => [200, 240, 255],
            Expression::Happy => [255, 230, 200],
            Expression::Sad => [160, 200, 255],
            Expression::Angry => [255, 120, 100],
            Expression::Sleepy => [180, 190, 220],
            Expression::Surprised => [255, 255, 240],
            Expression::Curious => [220, 250, 255],
            Expression::Playful => [255, 200, 255],
        }
    }

    /// Face colour that goes with the expression.
    pub fn tint(self) -> (r: [u8; 3])
        ensures
            r == self.spec_tint(),
    {
        match self {
            Expression::Neutral => [200, 240, 255],
            Expression::Happy => [255, 230, 200],
            Expression::Sad => [160, 200, 255],
            Expression::Angry => [255, 120, 100],
            Expression::Sleepy => [180, 190, 220],
            Expression::Surprised => [255, 255, 240],
            Expression::Curious => [220, 250, 255],
            Expression::Playful => [255, 200, 255],
        }
    }
}

/// The named (non-continuous) part of the character's state: what it shows,
/// how it idles, its colour and its automatic behaviours.
#[derive(Debug, Clone, Copy)]
pub struct MateLook {
    pub expression: Expression,
    pub mood: Mood,
    pub routine: IdleRoutine,
    pub color: [u8; 3],
    pub color_override: Option<[u8; 3]>,
    pub auto: AutoFlags,
}

impl Default for MateLook {
    /// Neutral and calm, orbiting, in the neutral tint with no override.
    fn default() -> (r: Self)
        ensures
            r.expression == Expression::Neutral,
            r.mood == Mood::Calm,
            r.routine == IdleRoutine::Orbit,
            r.color == [200u8, 240, 255],
            r.color_override is None,
            r.auto.breath && r.auto.blink && r.auto.saccade && !r.auto.tremor,
    {
        MateLook {
            expression: Expression::Neutral,
            mood: Mood::Calm,
            routine: IdleRoutine::Orbit,
            color: [200, 240, 255],
            color_override: None,
            auto: AutoFlags::default(),
        }
    }
}

/// The named fields of a character patch, as read from a request body.
/// `appearance_color` holds each element of `appearance.color` as an unsigned
/// integer where it is one.
#[derive(Debug, Clone)]
pub struct MatePatch {
    pub expression: Option<String>,
    pub mood: Option<String>,
    pub use_expression_tint: bool,
    pub routine: Option<String>,
    pub appearance_use_expression_tint: bool,
    pub appearance_color: Option<Vec<Option<u64>>>,
    pub auto_breath: Option<bool>,
    pub auto_blink: Option<bool>,
    pub auto_saccade: Option<bool>,
    pub auto_tremor: Option<bool>,
}

/// One colour channel of `appearance.color`: a missing or non-integer element
/// takes `default`, larger values saturate at 255.
pub open spec fn channel_or(c: Option<u64>, default: u64) -> u8 {
    let v = match c {
        Some(x) => x,
        None => default,
    };
    if v > 255 {
        255
    } else {
        v as u8
    }
}

/// The colour `appearance.color` asks for, when it has at least three elements.
pub open spec fn spec_appearance_color(c: Seq<Option<u64>>) -> Option<[u8; 3]> {
    if c.len() >= 3 {
        Some([channel_or(c[0], 200), channel_or(c[1], 240), channel_or(c[2], 255)])
    } else {
        None
    }
}

/// Option of a string, by its characters.
pub open spec fn opt_chars(o: Option<String>) -> Option<Seq<char>> {
    match o {
        Some(s) => Some(s@),
        None => None,
    }
}

/// Option of a vector, by its elements.
pub open spec fn opt_channels(o: Option<Vec<Option<u64>>>) -> Option<Seq<Option<u64>>> {
    match o {
        Some(v) => Some(v@),
        None => None,
    }
}

/// Replaces the colour by the expression's tint and drops any override.
pub open spec fn with_tint(l: MateLook) -> MateLook {
    MateLook { color_override: None, color: l.expression.spec_tint(), ..l }
}

/// `flag` replaced by `o` where `o` is given.
pub open spec fn flag_or(o: Option<bool>, flag: bool) -> bool {
    match o {
        Some(b) => b,
        None => flag,
    }
}

/// The expression named by `o`, where it names one.
#[verifier::opaque]
pub open spec fn step_expression(l: MateLook, o: Option<Seq<char>>) -> MateLook {
    match o {
        Some(s) => match Expression::spec_parse(s) {
            Some(e) => MateLook { expression: e, ..l },
            None => l,
        },
        None => l,
    }
}

/// The mood named by `o`, where it names one.
#[verifier::opaque]
pub open spec fn step_mood(l: MateLook, o: Option<Seq<char>>) -> MateLook {
    match o {
        Some(s) => match Mood::spec_parse(s) {
            Some(m) => MateLook { mood: m, ..l },
            None => l,
        },
        None => l,
    }
}

/// The idle routine named by `o`, where it names one.
#[verifier::opaque]
pub open spec fn step_routine(l: MateLook, o: Option<Seq<char>>) -> MateLook {
    match o {
        Some(s) => match IdleRoutine::spec_parse(s) {
            Some(r) => MateLook { routine: r, ..l },
            None => l,
        },
        None => l,
    }
}

/// The appearance colour `o` asks for, which also becomes the override.
pub open spec fn step_color(l: MateLook, o: Option<Seq<Option<u64>>>) -> MateLook {
    match o {
        Some(c) => match spec_appearance_color(c) {
            Some(rgb) => MateLook { color_override: Some(rgb), color: rgb, ..l },
            None => l,
        },
        None => l,
    }
}

/// What a patch does to the named state, field by field in this order: expression
/// and mood (an unknown name changes nothing), the expression tint, the idle
/// routine, the appearance tint, the appearance colour (which also becomes the
/// override), then the automatic behaviours.
pub open spec fn spec_apply_patch(
    l: MateLook,
    expression: Option<Seq<char>>,
    mood: Option<Seq<char>>,
    use_tint: bool,
    routine: Option<Seq<char>>,
    appearance_tint: bool,
    appearance_color: Option<Seq<Option<u64>>>,
    auto: (Option<bool>, Option<bool>, Option<bool>, Option<bool>),
) -> MateLook {
    let l2 = step_mood(step_expression(l, expression), mood);
    let l3 = if use_tint {
        with_tint(l2)
    } else {
        l2
    };
    let l4 = step_routine(l3, routine);
    let l5 = if appearance_tint {
        with_tint(l4)
    } else {
        l4
    };
    let l6 = step_color(l5, appearance_color);
    MateLook {
        auto: AutoFlags {
            breath: flag_or(auto.0, l6.auto.breath),
            blink: flag_or(auto.1, l6.auto.blink),
            saccade: flag_or(auto.2, l6.auto.saccade),
            tremor: flag_or(auto.3, l6.auto.tremor),
        },
        ..l6
    }
}

/// Patch law: a patch sets each named field it gives a valid name for (expression, mood,
/// idle routine) and each automatic behaviour it gives; a field it leaves out, or names
/// with an unknown name, keeps its value.
pub proof fn lemma_apply_patch_sets_named_fields(
    l: MateLook,
    expression: Option<Seq<char>>,
    mood: Option<Seq<char>>,
    use_tint: bool,
    routine: Option<Seq<char>>,
    appearance_tint: bool,
    appearance_color: Option<Seq<Option<u64>>>,
    auto: (Option<bool>, Option<bool>, Option<bool>, Option<bool>),
)
    ensures
        ({
            let r = spec_apply_patch(
                l,
                expression,
                mood,
                use_tint,
                routine,
                appearance_tint,
                appearance_color,
                auto,
            );
            &&& expression is Some && Expression::spec_parse(expression->0) is Some
                ==> r.expression == Expression::spec_parse(expression->0)->0
            &&& (expression is None || Expression::spec_parse(expression->0) is None)
                ==> r.expression == l.expression
            &&& mood is Some && Mood::spec_parse(mood->0) is Some ==> r.mood == Mood::spec_parse(mood->0)->0
            &&& (mood is None || Mood::spec_parse(mood->0) is None) ==> r.mood == l.mood
            &&& routine is Some && IdleRoutine::spec_parse(routine->0) is Some
                ==> r.routine == IdleRoutine::spec_parse(routine->0)->0
            &&& (routine is None || IdleRoutine::spec_parse(routine->0) is None) ==> r.routine == l.routine
            &&& auto.0 is Some ==> r.auto.breath == auto.0->0
            &&& auto.0 is None ==> r.auto.breath == l.auto.breath
            &&& auto.1 is Some ==> r.auto.blink == auto.1->0
            &&& auto.1 is None ==> r.auto.blink == l.auto.blink
            &&& auto.2 is Some ==> r.auto.saccade == auto.2->0
            &&& auto.2 is None ==> r.auto.saccade == l.auto.saccade
            &&& auto.3 is Some ==> r.auto.tremor == auto.3->0
            &&& auto.3 is None ==> r.auto.tremor == l.auto.tremor
        }),
{
    reveal(step_expression);
    reveal(step_mood);
    reveal(step_routine);
}

/// Patch law: the colour after a patch. A valid appearance colour is taken and becomes
/// the override; failing that, either tint switch paints the (new) expression's tint and
/// drops the override; otherwise the colour and override stay.
pub proof fn lemma_apply_patch_color(
    l: MateLook,
    expression: Option<Seq<char>>,
    mood: Option<Seq<char>>,
    use_tint: bool,
    routine: Option<Seq<char>>,
    appearance_tint: bool,
    appearance_color: Option<Seq<Option<u64>>>,
    auto: (Option<bool>, Option<bool>, Option<bool>, Option<bool>),
)
    ensures
        ({
            let r = spec_apply_patch(
                l,
                expression,
                mood,
                use_tint,
                routine,
                appearance_tint,
                appearance_color,
                auto,
            );
            let asked = match appearance_color {
                Some(c) => spec_appearance_color(c),
                None => None,
            };
            &&& asked is Some ==> r.color == asked->0 && r.color_override == asked
            &&& asked is None && (use_tint || appearance_tint) ==> r.color == r.expression.spec_tint()
                && r.color_override is None
            &&& asked is None && !use_tint && !appearance_tint ==> r.color == l.color
                && r.color_override == l.color_override
        }),
{
    reveal(step_expression);
    reveal(step_mood);
    reveal(step_routine);
}

/// Patch law: applying the same patch twice leaves the character as applying it once.
pub proof fn lemma_apply_patch_idempotent(
    l: MateLook,
    expression: Option<Seq<char>>,
    mood: Option<Seq<char>>,
    use_tint: bool,
    routine: Option<Seq<char>>,
    appearance_tint: bool,
    appearance_color: Option<Seq<Option<u64>>>,
    auto: (Option<bool>, Option<bool>, Option<bool>, Option<bool>),
)
    ensures
        ({
            let once = spec_apply_patch(
                l,
                expression,
                mood,
                use_tint,
                routine,
                appearance_tint,
                appearance_color,
                auto,
            );
            spec_apply_patch(
                once,
                expression,
                mood,
                use_tint,
                routine,
                appearance_tint,
                appearance_color,
                auto,
            ) == once
        }),
{
    reveal(step_expression);
    reveal(step_mood);
    reveal(step_routine);
}

/// Patch law: a patch that names nothing changes nothing.
pub proof fn lemma_empty_patch_keeps_look(l: MateLook)
    ensures
        spec_apply_patch(l, None, None, false, None, false, None, (None, None, None, None)) == l,
{
    reveal(step_expression);
    reveal(step_mood);
    reveal(step_routine);
}

fn channel(c: Option<u64>, default: u64) -> (r: u8)
    ensures
        r == channel_or(c, default),
{
    let v = match c {
        Some(x) => x,
        None => default,
    };
    if v > 255 {
        255
    } else {
        v as u8
    }
}

/// The colour `appearance.color` asks for, when it has at least three elements.
pub fn appearance_color(c: &Vec<Option<u64>>) -> (r: Option<[u8; 3]>)
    ensures
        r == spec_appearance_color(c@),
{
    if c.len() >= 3 {
        Some([channel(c[0], 200), channel(c[1], 240), channel(c[2], 255)])
    } else {
        None
    }
}

impl MateLook {
    fn set_expression_named(&mut self, o: &Option<String>)
        ensures
            *final(self) == step_expression(*old(self), opt_chars(*o)),
    {
        reveal(step_expression);
        if let Some(s) = o {
            if let Some(e) = Expression::parse(s.as_str()) {
                self.expression = e;
            }
        }
    }

    fn set_mood_named(&mut self, o: &Option<String>)
        ensures
            *final(self) == step_mood(*old(self), opt_chars(*o)),
    {
        reveal(step_mood);
        if let Some(s) = o {
            if let Some(m) = Mood::parse(s.as_str()) {
                self.mood = m;
            }
        }
    }

    fn set_routine_named(&mut self, o: &Option<String>)
        ensures
            *final(self) == step_routine(*old(self), opt_chars(*o)),
    {
        reveal(step_routine);
        if let Some(s) = o {
            if let Some(r) = IdleRoutine::parse(s.as_str()) {
                self.routine = r;
            }
        }
    }

    /// Applies the named fields of a character patch.
    pub fn apply_patch(&mut self, patch: &MatePatch)
        ensures
            *final(self) == spec_apply_patch(
                *old(self),
                opt_chars(patch.expression),
                opt_chars(patch.mood),
                patch.use_expression_tint,
                opt_chars(patch.routine),
                patch.appearance_use_expression_tint,
                opt_channels(patch.appearance_color),
                (patch.auto_breath, patch.auto_blink, patch.auto_saccade, patch.auto_tremor),
            ),
    {
        self.set_expression_named(&patch.expression);
        self.set_mood_named(&patch.mood);
        self.tint_if(patch.use_expression_tint);
        self.set_routine_named(&patch.routine);
        self.tint_if(patch.appearance_use_expression_tint);
        self.set_color_from(&patch.appearance_color);
        self.set_auto(patch.auto_breath, patch.auto_blink, patch.auto_saccade, patch.auto_tremor);
    }

    fn tint_if(&mut self, b: bool)
        ensures
            *final(self) == (if b {
                with_tint(*old(self))
            } else {
                *old(self)
            }),
    {
        if b {
            self.color_override = None;
            self.color = self.expression.tint();
        }
    }

    fn set_color_from(&mut self, o: &Option<Vec<Option<u64>>>)
        ensures
            *final(self) == step_color(*old(self), opt_channels(*o)),
    {
        if let Some(c) = o {
            if let Some(rgb) = appearance_color(c) {
                self.color_override = Some(rgb);
                self.color = rgb;
            }
        }
    }

    fn set_auto(&mut self, breath: Option<bool>, blink: Option<bool>, saccade: Option<bool>, tremor: Option<bool>)
        ensures
            *final(self) == (MateLook {
                auto: AutoFlags {
                    breath: flag_or(breath, old(self).auto.breath),
                    blink: flag_or(blink, old(self).auto.blink),
                    saccade: flag_or(saccade, old(self).auto.saccade),
                    tremor: flag_or(tremor, old(self).auto.tremor),
                },
                ..*old(self)
            }),
    {
        if let Some(b) = breath {
            self.auto.breath = b;
        }
        if let Some(b) = blink {
            self.auto.blink = b;
        }
        if let Some(b) = saccade {
            self.auto.saccade = b;
        }
        if let Some(b) = tremor {
            self.auto.tremor = b;
        }
    }
}

} // verus!
