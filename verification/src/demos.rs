//! Built-in procedural loop demos (layout-independent): their ids and names.

use vstd::prelude::*;
use crate::strs::{chars_range_eq, chars_vec, has_prefix};

verus! {

pub const DEMO_PREFIX: &'static str = "demo/";

#[derive(Debug, Clone, Copy, PartialEq, Eq)]
pub enum DemoId {
    ExpandingRings,
    RainbowSweep,
    Twinkle,
    MateMoods,
    RainbowRings,
}

impl DemoId {
    /// The id segment after `demo/`.
    pub open spec fn spec_name(self) -> Seq<char> {
        match self {
            DemoId::ExpandingRings => "expanding-rings"@,
            DemoId::RainbowSweep => "rainbow-sweep"@,
            DemoId::Twinkle => "twinkle"@,
            DemoId::MateMoods => "mate-moods"@,
            DemoId::RainbowRings => "rainbow-rings"@,
        }
    }

    /// The demo whose name is `rest`, if any.
    pub open spec fn from_name(rest: Seq<char>) -> Option<DemoId> {
        if rest == "expanding-rings"@ {
            Some(DemoId::ExpandingRings)
        } else if rest == "rainbow-sweep"@ {
            Some(DemoId::RainbowSweep)
        } else if rest == "twinkle"@ {
            Some(DemoId::Twinkle)
        } else if rest == "mate-moods"@ {
            Some(DemoId::MateMoods)
        } else if rest == "rainbow-rings"@ {
            Some(DemoId::RainbowRings)
        } else {
            None
        }
    }

    /// The demo a clip id designates: `demo/` followed by a demo name.
    pub open spec fn spec_parse(id: Seq<char>) -> Option<DemoId> {
        if has_prefix(id, DEMO_PREFIX@) {
            DemoId::from_name(id.skip(DEMO_PREFIX@.len() as int))
        } else {
            None
        }
    }

    pub fn parse(id: &str) -> (r: Option<Self>)
        ensures
            r == DemoId::spec_parse(id@),
    {
        let v = chars_vec(id);
        proof {
            reveal_strlit("demo/");
        }
        if v.len() < 5 || !chars_range_eq(&v, 0, 5, DEMO_PREFIX) {
            return None;
        }
        assert(v@.subrange(5, v.len() as int) == id@.skip(5));
        let n = v.len();
        if chars_range_eq(&v, 5, n, "expanding-rings") {
            Some(Self::ExpandingRings)
        } else if chars_range_eq(&v, 5, n, "rainbow-sweep") {
            Some(Self::RainbowSweep)
        } else if chars_range_eq(&v, 5, n, "twinkle") {
            Some(Self::Twinkle)
        } else if chars_range_eq(&v, 5, n, "mate-moods") {
            Some(Self::MateMoods)
        } else if chars_range_eq(&v, 5, n, "rainbow-rings") {
            Some(Self::RainbowRings)
        } else {
            None
        }
    }

    pub fn as_str(self) -> (r: &'static str)
        ensures
            r@ == self.spec_name(),
    {
        match self {
            Self::ExpandingRings => "expanding-rings",
            Self::RainbowSweep => "rainbow-sweep",
            Self::Twinkle => "twinkle",
            Self::MateMoods => "mate-moods",
            Self::RainbowRings => "rainbow-rings",
        }
    }

    /// Clip id of the demo: `demo/<name>`.
    pub fn clip_id(self) -> (r: String)
        ensures
            r@ == DEMO_PREFIX@ + self.spec_name(),
    {
        let mut s = String::from_str(DEMO_PREFIX);
        s.append(self.as_str());
        s
    }

    pub open spec fn spec_display_name(self) -> Seq<char> {
        match self {
            DemoId::ExpandingRings => "Expanding rings"@,
            DemoId::RainbowSweep => "Rainbow sweep"@,
            DemoId::Twinkle => "Twinkle"@,
            DemoId::MateMoods => "Mate moods"@,
            DemoId::RainbowRings => "Rainbow + rings"@,
        }
    }

    pub fn display_name(self) -> (r: &'static str)
        ensures
            r@ == self.spec_display_name(),
    {
        match self {
            Self::ExpandingRings => "Expanding rings",
            Self::RainbowSweep => "Rainbow sweep",
            Self::Twinkle => "Twinkle",
            Self::MateMoods => "Mate moods",
            Self::RainbowRings => "Rainbow + rings",
        }
    }

    /// Every demo renders at 30 fps.
    pub fn fps(self) -> (r: u32)
        ensures
            r == 30,
    {
        30
    }

    /// All demos, in catalogue order.
    pub fn all() -> (r: [Self; 5])
        ensures
            r@ == seq![
                DemoId::ExpandingRings,
                DemoId::RainbowSweep,
                DemoId::Twinkle,
                DemoId::MateMoods,
                DemoId::RainbowRings,
            ],
    {
        let r = [
            Self::ExpandingRings,
            Self::RainbowSweep,
            Self::Twinkle,
            Self::MateMoods,
            Self::RainbowRings,
        ];
        assert(r@ =~= seq![
            DemoId::ExpandingRings,
            DemoId::RainbowSweep,
            DemoId::Twinkle,
            DemoId::MateMoods,
            DemoId::RainbowRings,
        ]);
        r
    }
}

/// Naming law: a demo's clip id parses back to that demo.
pub proof fn lemma_demo_clip_id_roundtrip(d: DemoId)
    ensures
        DemoId::spec_parse(DEMO_PREFIX@ + d.spec_name()) == Some(d),
{
    reveal_strlit("demo/");
    reveal_strlit("expanding-rings");
    reveal_strlit("rainbow-sweep");
    reveal_strlit("twinkle");
    reveal_strlit("mate-moods");
    reveal_strlit("rainbow-rings");
    let id = DEMO_PREFIX@ + d.spec_name();
    assert(id.take(5) =~= DEMO_PREFIX@);
    assert(id.skip(5) =~= d.spec_name());
    assert(has_prefix(id, DEMO_PREFIX@));
    match d {
        DemoId::ExpandingRings => {},
        DemoId::RainbowSweep => {
            assert("rainbow-sweep"@ != "expanding-rings"@);
        },
        DemoId::Twinkle => {
            assert("twinkle"@ != "expanding-rings"@);
            assert("twinkle"@ != "rainbow-sweep"@);
        },
        DemoId::MateMoods => {
            assert("mate-moods"@ != "expanding-rings"@);
            assert("mate-moods"@ != "rainbow-sweep"@);
            assert("mate-moods"@ != "twinkle"@);
        },
        DemoId::RainbowRings => {
            assert("rainbow-rings"@[8] != "rainbow-sweep"@[8]);
            assert("rainbow-rings"@ != "expanding-rings"@);
            assert("rainbow-rings"@ != "rainbow-sweep"@);
            assert("rainbow-rings"@ != "twinkle"@);
            assert("rainbow-rings"@ != "mate-moods"@);
        },
    }
}

} // verus!
