//! Versions and the helpers shared by every command builder: version families and profiles,
//! reading a save's version string, colour helpers, and the small text encoders (JSON string
//! literals, SNBT strings, namespaced ids).

use vstd::prelude::*;
use crate::give::catalog::{namespaced, namespaced_spec};
use crate::give::number::Decimal;
use crate::text::{
    chars_of, is_digit, is_hex_digit, push_char, push_str, str_eq, string_from, strip_prefix, strip_prefix_spec,
    trim, trim_spec,
};

verus! {

/// A target game version (the Java releases in order, then Bedrock).
#[derive(Clone, Copy, Debug, PartialEq, Eq, Structural)]
pub enum GiveVersion {
    Java1_20_5,
    Java1_21,
    Java1_21_1,
    Java1_21_2,
    Java1_21_3,
    Java1_21_4,
    Java1_21_5,
    Java1_21_6,
    Java1_21_9,
    Java1_21_11Plus,
    Java26_1,
    Java26_2Plus,
    Bedrock,
}

/// The position of a Java version in release order; Bedrock has none.
pub open spec fn java_rank(v: GiveVersion) -> Option<int> {
    match v {
        GiveVersion::Java1_20_5 => Some(0),
        GiveVersion::Java1_21 => Some(1),
        GiveVersion::Java1_21_1 => Some(2),
        GiveVersion::Java1_21_2 => Some(3),
        GiveVersion::Java1_21_3 => Some(4),
        GiveVersion::Java1_21_4 => Some(5),
        GiveVersion::Java1_21_5 => Some(6),
        GiveVersion::Java1_21_6 => Some(7),
        GiveVersion::Java1_21_9 => Some(8),
        GiveVersion::Java1_21_11Plus => Some(9),
        GiveVersion::Java26_1 => Some(10),
        GiveVersion::Java26_2Plus => Some(11),
        GiveVersion::Bedrock => None,
    }
}

/// `version` is a Java version no older than `min` (never true for Bedrock).
pub open spec fn at_least(version: GiveVersion, min: GiveVersion) -> bool {
    match (java_rank(version), java_rank(min)) {
        (Some(a), Some(b)) => a >= b,
        _ => false,
    }
}

fn rank(v: GiveVersion) -> (r: Option<u8>)
    ensures
        match java_rank(v) {
            Some(k) => r matches Some(x) && x == k,
            None => r is None,
        },
{
    match v {
        GiveVersion::Java1_20_5 => Some(0),
        GiveVersion::Java1_21 => Some(1),
        GiveVersion::Java1_21_1 => Some(2),
        GiveVersion::Java1_21_2 => Some(3),
        GiveVersion::Java1_21_3 => Some(4),
        GiveVersion::Java1_21_4 => Some(5),
        GiveVersion::Java1_21_5 => Some(6),
        GiveVersion::Java1_21_6 => Some(7),
        GiveVersion::Java1_21_9 => Some(8),
        GiveVersion::Java1_21_11Plus => Some(9),
        GiveVersion::Java26_1 => Some(10),
        GiveVersion::Java26_2Plus => Some(11),
        GiveVersion::Bedrock => None,
    }
}

/// `version` is a Java version no older than `min`.
pub fn version_at_least(version: GiveVersion, min: GiveVersion) -> (b: bool)
    ensures
        b == at_least(version, min),
{
    match (rank(version), rank(min)) {
        (Some(a), Some(b)) => a >= b,
        _ => false,
    }
}

/// Java 1.21 and 1.21.1: the legacy item syntax.
pub fn is_java121_legacy_family(version: GiveVersion) -> (b: bool)
    ensures
        b == (version == GiveVersion::Java1_21 || version == GiveVersion::Java1_21_1),
{
    match version {
        GiveVersion::Java1_21 | GiveVersion::Java1_21_1 => true,
        _ => false,
    }
}

/// Java 1.20.5 (and 1.20.6).
pub fn is_java1205_family(version: GiveVersion) -> (b: bool)
    ensures
        b == (version == GiveVersion::Java1_20_5),
{
    match version {
        GiveVersion::Java1_20_5 => true,
        _ => false,
    }
}

/// Java 1.21.2 to 1.21.4.
pub fn is_java1212_family(version: GiveVersion) -> (b: bool)
    ensures
        b == (version == GiveVersion::Java1_21_2 || version == GiveVersion::Java1_21_3 || version
            == GiveVersion::Java1_21_4),
{
    match version {
        GiveVersion::Java1_21_2 | GiveVersion::Java1_21_3 | GiveVersion::Java1_21_4 => true,
        _ => false,
    }
}

/// Java 1.21.5 and later: entity NBT with `attributes[]`/`id`/`base` and `equipment{}`.
/// Bedrock is not in this family.
pub fn is_modern_nbt_family(version: GiveVersion) -> (b: bool)
    ensures
        b == at_least(version, GiveVersion::Java1_21_5),
{
    version_at_least(version, GiveVersion::Java1_21_5)
}

/// What the item-component syntax of a version supports.
#[derive(Clone, Copy, Debug)]
pub struct ModernProfile {
    pub text_as_snbt_string: bool,
    pub adventure_predicate_wrapper: bool,
    pub supports_tooltip_display: bool,
    pub supports_consumable: bool,
    pub supports_glider: bool,
    pub supports_death_protection: bool,
    pub supports_attribute_modifiers: bool,
}

/// The profile of a version: nothing for Bedrock and the 1.21 legacy family; the 1.20.5
/// profile (SNBT text, predicate wrappers, no consumable/glider/death protection/attribute
/// modifiers); the 1.21.2 profile (the same, with those four, still no tooltip display); and
/// the modern profile (JSON text, no wrappers, everything).
pub open spec fn profile_of(version: GiveVersion) -> ModernProfile {
    if version == GiveVersion::Bedrock || version == GiveVersion::Java1_21 || version == GiveVersion::Java1_21_1 {
        ModernProfile {
            text_as_snbt_string: false,
            adventure_predicate_wrapper: false,
            supports_tooltip_display: false,
            supports_consumable: false,
            supports_glider: false,
            supports_death_protection: false,
            supports_attribute_modifiers: false,
        }
    } else if version == GiveVersion::Java1_20_5 {
        ModernProfile {
            text_as_snbt_string: true,
            adventure_predicate_wrapper: true,
            supports_tooltip_display: false,
            supports_consumable: false,
            supports_glider: false,
            supports_death_protection: false,
            supports_attribute_modifiers: false,
        }
    } else if version == GiveVersion::Java1_21_2 || version == GiveVersion::Java1_21_3 || version
        == GiveVersion::Java1_21_4 {
        ModernProfile {
            text_as_snbt_string: true,
            adventure_predicate_wrapper: true,
            supports_tooltip_display: false,
            supports_consumable: true,
            supports_glider: true,
            supports_death_protection: true,
            supports_attribute_modifiers: true,
        }
    } else {
        ModernProfile {
            text_as_snbt_string: false,
            adventure_predicate_wrapper: false,
            supports_tooltip_display: true,
            supports_consumable: true,
            supports_glider: true,
            supports_death_protection: true,
            supports_attribute_modifiers: true,
        }
    }
}

/// The item-component profile of a version (see `profile_of`).
pub fn get_modern_profile(version: GiveVersion) -> (p: ModernProfile)
    ensures
        p == profile_of(version),
{
    if version == GiveVersion::Bedrock || is_java121_legacy_family(version) {
        ModernProfile {
            text_as_snbt_string: false,
            adventure_predicate_wrapper: false,
            supports_tooltip_display: false,
            supports_consumable: false,
            supports_glider: false,
            supports_death_protection: false,
            supports_attribute_modifiers: false,
        }
    } else if is_java1205_family(version) {
        ModernProfile {
            text_as_snbt_string: true,
            adventure_predicate_wrapper: true,
            supports_tooltip_display: false,
            supports_consumable: false,
            supports_glider: false,
            supports_death_protection: false,
            supports_attribute_modifiers: false,
        }
    } else if is_java1212_family(version) {
        ModernProfile {
            text_as_snbt_string: true,
            adventure_predicate_wrapper: true,
            supports_tooltip_display: false,
            supports_consumable: true,
            supports_glider: true,
            supports_death_protection: true,
            supports_attribute_modifiers: true,
        }
    } else {
        ModernProfile {
            text_as_snbt_string: false,
            adventure_predicate_wrapper: false,
            supports_tooltip_display: true,
            supports_consumable: true,
            supports_glider: true,
            supports_death_protection: true,
            supports_attribute_modifiers: true,
        }
    }
}

/// Text-component features by version: object components from 1.21.9, snake-case
/// click/hover events from 1.21.5, shadow colour arrays from 1.21.4.
pub struct TextProfile {
    pub supports_object_component: bool,
    pub event_format_modern: bool,
    pub supports_shadow_array: bool,
}

/// The text-component profile of a version.
pub open spec fn text_profile_of(version: GiveVersion) -> TextProfile {
    TextProfile {
        supports_object_component: at_least(version, GiveVersion::Java1_21_9),
        event_format_modern: at_least(version, GiveVersion::Java1_21_5),
        supports_shadow_array: at_least(version, GiveVersion::Java1_21_4),
    }
}

/// The text-component profile of a version.
pub fn resolve_text_profile(version: GiveVersion) -> (p: TextProfile)
    ensures
        p == text_profile_of(version),
{
    TextProfile {
        supports_object_component: version_at_least(version, GiveVersion::Java1_21_9),
        event_format_modern: version_at_least(version, GiveVersion::Java1_21_5),
        supports_shadow_array: version_at_least(version, GiveVersion::Java1_21_4),
    }
}

/// The version named by a form's version tag; unknown tags mean the newest Java syntax.
pub open spec fn version_of_tag(text: Seq<char>) -> GiveVersion {
    if text == "java_1_20_5"@ {
        GiveVersion::Java1_20_5
    } else if text == "java_1_21"@ {
        GiveVersion::Java1_21
    } else if text == "java_1_21_1"@ {
        GiveVersion::Java1_21_1
    } else if text == "java_1_21_2"@ {
        GiveVersion::Java1_21_2
    } else if text == "java_1_21_3"@ {
        GiveVersion::Java1_21_3
    } else if text == "java_1_21_4"@ {
        GiveVersion::Java1_21_4
    } else if text == "java_1_21_5"@ {
        GiveVersion::Java1_21_5
    } else if text == "java_1_21_6"@ {
        GiveVersion::Java1_21_6
    } else if text == "java_1_21_9"@ {
        GiveVersion::Java1_21_9
    } else if text == "java_1_21_11_plus"@ {
        GiveVersion::Java1_21_11Plus
    } else if text == "java_26_1"@ {
        GiveVersion::Java26_1
    } else if text == "java_26_2_plus"@ {
        GiveVersion::Java26_2Plus
    } else if text == "bedrock"@ {
        GiveVersion::Bedrock
    } else {
        GiveVersion::Java1_21_11Plus
    }
}

/// The tag a version is saved under (`java_1_21_5`, `bedrock`, ...).
pub open spec fn tag_of(v: GiveVersion) -> Seq<char> {
    match v {
        GiveVersion::Java1_20_5 => "java_1_20_5"@,
        GiveVersion::Java1_21 => "java_1_21"@,
        GiveVersion::Java1_21_1 => "java_1_21_1"@,
        GiveVersion::Java1_21_2 => "java_1_21_2"@,
        GiveVersion::Java1_21_3 => "java_1_21_3"@,
        GiveVersion::Java1_21_4 => "java_1_21_4"@,
        GiveVersion::Java1_21_5 => "java_1_21_5"@,
        GiveVersion::Java1_21_6 => "java_1_21_6"@,
        GiveVersion::Java1_21_9 => "java_1_21_9"@,
        GiveVersion::Java1_21_11Plus => "java_1_21_11_plus"@,
        GiveVersion::Java26_1 => "java_26_1"@,
        GiveVersion::Java26_2Plus => "java_26_2_plus"@,
        GiveVersion::Bedrock => "bedrock"@,
    }
}

impl GiveVersion {
    /// The tag the version is saved under.
    pub fn tag(self) -> (s: &'static str)
        ensures
            s@ == tag_of(self),
    {
        match self {
            GiveVersion::Java1_20_5 => "java_1_20_5",
            GiveVersion::Java1_21 => "java_1_21",
            GiveVersion::Java1_21_1 => "java_1_21_1",
            GiveVersion::Java1_21_2 => "java_1_21_2",
            GiveVersion::Java1_21_3 => "java_1_21_3",
            GiveVersion::Java1_21_4 => "java_1_21_4",
            GiveVersion::Java1_21_5 => "java_1_21_5",
            GiveVersion::Java1_21_6 => "java_1_21_6",
            GiveVersion::Java1_21_9 => "java_1_21_9",
            GiveVersion::Java1_21_11Plus => "java_1_21_11_plus",
            GiveVersion::Java26_1 => "java_26_1",
            GiveVersion::Java26_2Plus => "java_26_2_plus",
            GiveVersion::Bedrock => "bedrock",
        }
    }
}

/// Reading the tag of a version gives the version back.
pub proof fn lemma_tag_roundtrip(v: GiveVersion)
    ensures
        version_of_tag(tag_of(v)) == v,
{
    reveal_strlit("java_1_20_5");
    reveal_strlit("java_1_21");
    reveal_strlit("java_1_21_1");
    reveal_strlit("java_1_21_2");
    reveal_strlit("java_1_21_3");
    reveal_strlit("java_1_21_4");
    reveal_strlit("java_1_21_5");
    reveal_strlit("java_1_21_6");
    reveal_strlit("java_1_21_9");
    reveal_strlit("java_1_21_11_plus");
    reveal_strlit("java_26_1");
    reveal_strlit("java_26_2_plus");
    reveal_strlit("bedrock");
    let t = tag_of(v);
    match v {
        GiveVersion::Java1_20_5 => {
        },
        GiveVersion::Java1_21 => {
            assert("java_1_21"@ != "java_1_20_5"@) by {
                assert("java_1_21"@.len() != "java_1_20_5"@.len());
            }
        },
        GiveVersion::Java1_21_1 => {
            assert("java_1_21_1"@ != "java_1_20_5"@) by {
                assert("java_1_21_1"@[8] != "java_1_20_5"@[8]);
            }
            assert("java_1_21_1"@ != "java_1_21"@) by {
                assert("java_1_21_1"@.len() != "java_1_21"@.len());
            }
        },
        GiveVersion::Java1_21_2 => {
            assert("java_1_21_2"@ != "java_1_20_5"@) by {
                assert("java_1_21_2"@[8] != "java_1_20_5"@[8]);
            }
            assert("java_1_21_2"@ != "java_1_21"@) by {
                assert("java_1_21_2"@.len() != "java_1_21"@.len());
            }
            assert("java_1_21_2"@ != "java_1_21_1"@) by {
                assert("java_1_21_2"@[10] != "java_1_21_1"@[10]);
            }
        },
        GiveVersion::Java1_21_3 => {
            assert("java_1_21_3"@ != "java_1_20_5"@) by {
                assert("java_1_21_3"@[8] != "java_1_20_5"@[8]);
            }
            assert("java_1_21_3"@ != "java_1_21"@) by {
                assert("java_1_21_3"@.len() != "java_1_21"@.len());
            }
            assert("java_1_21_3"@ != "java_1_21_1"@) by {
                assert("java_1_21_3"@[10] != "java_1_21_1"@[10]);
            }
            assert("java_1_21_3"@ != "java_1_21_2"@) by {
                assert("java_1_21_3"@[10] != "java_1_21_2"@[10]);
            }
        },
        GiveVersion::Java1_21_4 => {
            assert("java_1_21_4"@ != "java_1_20_5"@) by {
                assert("java_1_21_4"@[8] != "java_1_20_5"@[8]);
            }
            assert("java_1_21_4"@ != "java_1_21"@) by {
                assert("java_1_21_4"@.len() != "java_1_21"@.len());
            }
            assert("java_1_21_4"@ != "java_1_21_1"@) by {
                assert("java_1_21_4"@[10] != "java_1_21_1"@[10]);
            }
            assert("java_1_21_4"@ != "java_1_21_2"@) by {
                assert("java_1_21_4"@[10] != "java_1_21_2"@[10]);
            }
            assert("java_1_21_4"@ != "java_1_21_3"@) by {
                assert("java_1_21_4"@[10] != "java_1_21_3"@[10]);
            }
        },
        GiveVersion::Java1_21_5 => {
            assert("java_1_21_5"@ != "java_1_20_5"@) by {
                assert("java_1_21_5"@[8] != "java_1_20_5"@[8]);
            }
            assert("java_1_21_5"@ != "java_1_21"@) by {
                assert("java_1_21_5"@.len() != "java_1_21"@.len());
            }
            assert("java_1_21_5"@ != "java_1_21_1"@) by {
                assert("java_1_21_5"@[10] != "java_1_21_1"@[10]);
            }
            assert("java_1_21_5"@ != "java_1_21_2"@) by {
                assert("java_1_21_5"@[10] != "java_1_21_2"@[10]);
            }
            assert("java_1_21_5"@ != "java_1_21_3"@) by {
                assert("java_1_21_5"@[10] != "java_1_21_3"@[10]);
            }
            assert("java_1_21_5"@ != "java_1_21_4"@) by {
                assert("java_1_21_5"@[10] != "java_1_21_4"@[10]);
            }
        },
        GiveVersion::Java1_21_6 => {
            assert("java_1_21_6"@ != "java_1_20_5"@) by {
                assert("java_1_21_6"@[8] != "java_1_20_5"@[8]);
            }
            assert("java_1_21_6"@ != "java_1_21"@) by {
                assert("java_1_21_6"@.len() != "java_1_21"@.len());
            }
            assert("java_1_21_6"@ != "java_1_21_1"@) by {
                assert("java_1_21_6"@[10] != "java_1_21_1"@[10]);
            }
            assert("java_1_21_6"@ != "java_1_21_2"@) by {
                assert("java_1_21_6"@[10] != "java_1_21_2"@[10]);
            }
            assert("java_1_21_6"@ != "java_1_21_3"@) by {
                assert("java_1_21_6"@[10] != "java_1_21_3"@[10]);
            }
            assert("java_1_21_6"@ != "java_1_21_4"@) by {
                assert("java_1_21_6"@[10] != "java_1_21_4"@[10]);
            }
            assert("java_1_21_6"@ != "java_1_21_5"@) by {
                assert("java_1_21_6"@[10] != "java_1_21_5"@[10]);
            }
        },
        GiveVersion::Java1_21_9 => {
            assert("java_1_21_9"@ != "java_1_20_5"@) by {
                assert("java_1_21_9"@[8] != "java_1_20_5"@[8]);
            }
            assert("java_1_21_9"@ != "java_1_21"@) by {
                assert("java_1_21_9"@.len() != "java_1_21"@.len());
            }
            assert("java_1_21_9"@ != "java_1_21_1"@) by {
                assert("java_1_21_9"@[10] != "java_1_21_1"@[10]);
            }
            assert("java_1_21_9"@ != "java_1_21_2"@) by {
                assert("java_1_21_9"@[10] != "java_1_21_2"@[10]);
            }
            assert("java_1_21_9"@ != "java_1_21_3"@) by {
                assert("java_1_21_9"@[10] != "java_1_21_3"@[10]);
            }
            assert("java_1_21_9"@ != "java_1_21_4"@) by {
                assert("java_1_21_9"@[10] != "java_1_21_4"@[10]);
            }
            assert("java_1_21_9"@ != "java_1_21_5"@) by {
                assert("java_1_21_9"@[10] != "java_1_21_5"@[10]);
            }
            assert("java_1_21_9"@ != "java_1_21_6"@) by {
                assert("java_1_21_9"@[10] != "java_1_21_6"@[10]);
            }
        },
        GiveVersion::Java1_21_11Plus => {
            assert("java_1_21_11_plus"@ != "java_1_20_5"@) by {
                assert("java_1_21_11_plus"@.len() != "java_1_20_5"@.len());
            }
            assert("java_1_21_11_plus"@ != "java_1_21"@) by {
                assert("java_1_21_11_plus"@.len() != "java_1_21"@.len());
            }
            assert("java_1_21_11_plus"@ != "java_1_21_1"@) by {
                assert("java_1_21_11_plus"@.len() != "java_1_21_1"@.len());
            }
            assert("java_1_21_11_plus"@ != "java_1_21_2"@) by {
                assert("java_1_21_11_plus"@.len() != "java_1_21_2"@.len());
            }
            assert("java_1_21_11_plus"@ != "java_1_21_3"@) by {
                assert("java_1_21_11_plus"@.len() != "java_1_21_3"@.len());
            }
            assert("java_1_21_11_plus"@ != "java_1_21_4"@) by {
                assert("java_1_21_11_plus"@.len() != "java_1_21_4"@.len());
            }
            assert("java_1_21_11_plus"@ != "java_1_21_5"@) by {
                assert("java_1_21_11_plus"@.len() != "java_1_21_5"@.len());
            }
            assert("java_1_21_11_plus"@ != "java_1_21_6"@) by {
                assert("java_1_21_11_plus"@.len() != "java_1_21_6"@.len());
            }
            assert("java_1_21_11_plus"@ != "java_1_21_9"@) by {
                assert("java_1_21_11_plus"@.len() != "java_1_21_9"@.len());
            }
        },
        GiveVersion::Java26_1 => {
            assert("java_26_1"@ != "java_1_20_5"@) by {
                assert("java_26_1"@.len() != "java_1_20_5"@.len());
            }
            assert("java_26_1"@ != "java_1_21"@) by {
                assert("java_26_1"@[5] != "java_1_21"@[5]);
            }
            assert("java_26_1"@ != "java_1_21_1"@) by {
                assert("java_26_1"@.len() != "java_1_21_1"@.len());
            }
            assert("java_26_1"@ != "java_1_21_2"@) by {
                assert("java_26_1"@.len() != "java_1_21_2"@.len());
            }
            assert("java_26_1"@ != "java_1_21_3"@) by {
                assert("java_26_1"@.len() != "java_1_21_3"@.len());
            }
            assert("java_26_1"@ != "java_1_21_4"@) by {
                assert("java_26_1"@.len() != "java_1_21_4"@.len());
            }
            assert("java_26_1"@ != "java_1_21_5"@) by {
                assert("java_26_1"@.len() != "java_1_21_5"@.len());
            }
            assert("java_26_1"@ != "java_1_21_6"@) by {
                assert("java_26_1"@.len() != "java_1_21_6"@.len());
            }
            assert("java_26_1"@ != "java_1_21_9"@) by {
                assert("java_26_1"@.len() != "java_1_21_9"@.len());
            }
            assert("java_26_1"@ != "java_1_21_11_plus"@) by {
                assert("java_26_1"@.len() != "java_1_21_11_plus"@.len());
            }
        },
        GiveVersion::Java26_2Plus => {
            assert("java_26_2_plus"@ != "java_1_20_5"@) by {
                assert("java_26_2_plus"@.len() != "java_1_20_5"@.len());
            }
            assert("java_26_2_plus"@ != "java_1_21"@) by {
                assert("java_26_2_plus"@.len() != "java_1_21"@.len());
            }
            assert("java_26_2_plus"@ != "java_1_21_1"@) by {
                assert("java_26_2_plus"@.len() != "java_1_21_1"@.len());
            }
            assert("java_26_2_plus"@ != "java_1_21_2"@) by {
                assert("java_26_2_plus"@.len() != "java_1_21_2"@.len());
            }
            assert("java_26_2_plus"@ != "java_1_21_3"@) by {
                assert("java_26_2_plus"@.len() != "java_1_21_3"@.len());
            }
            assert("java_26_2_plus"@ != "java_1_21_4"@) by {
                assert("java_26_2_plus"@.len() != "java_1_21_4"@.len());
            }
            assert("java_26_2_plus"@ != "java_1_21_5"@) by {
                assert("java_26_2_plus"@.len() != "java_1_21_5"@.len());
            }
            assert("java_26_2_plus"@ != "java_1_21_6"@) by {
                assert("java_26_2_plus"@.len() != "java_1_21_6"@.len());
            }
            assert("java_26_2_plus"@ != "java_1_21_9"@) by {
                assert("java_26_2_plus"@.len() != "java_1_21_9"@.len());
            }
            assert("java_26_2_plus"@ != "java_1_21_11_plus"@) by {
                assert("java_26_2_plus"@.len() != "java_1_21_11_plus"@.len());
            }
            assert("java_26_2_plus"@ != "java_26_1"@) by {
                assert("java_26_2_plus"@.len() != "java_26_1"@.len());
            }
        },
        GiveVersion::Bedrock => {
            assert("bedrock"@ != "java_1_20_5"@) by {
                assert("bedrock"@.len() != "java_1_20_5"@.len());
            }
            assert("bedrock"@ != "java_1_21"@) by {
                assert("bedrock"@.len() != "java_1_21"@.len());
            }
            assert("bedrock"@ != "java_1_21_1"@) by {
                assert("bedrock"@.len() != "java_1_21_1"@.len());
            }
            assert("bedrock"@ != "java_1_21_2"@) by {
                assert("bedrock"@.len() != "java_1_21_2"@.len());
            }
            assert("bedrock"@ != "java_1_21_3"@) by {
                assert("bedrock"@.len() != "java_1_21_3"@.len());
            }
            assert("bedrock"@ != "java_1_21_4"@) by {
                assert("bedrock"@.len() != "java_1_21_4"@.len());
            }
            assert("bedrock"@ != "java_1_21_5"@) by {
                assert("bedrock"@.len() != "java_1_21_5"@.len());
            }
            assert("bedrock"@ != "java_1_21_6"@) by {
                assert("bedrock"@.len() != "java_1_21_6"@.len());
            }
            assert("bedrock"@ != "java_1_21_9"@) by {
                assert("bedrock"@.len() != "java_1_21_9"@.len());
            }
            assert("bedrock"@ != "java_1_21_11_plus"@) by {
                assert("bedrock"@.len() != "java_1_21_11_plus"@.len());
            }
            assert("bedrock"@ != "java_26_1"@) by {
                assert("bedrock"@.len() != "java_26_1"@.len());
            }
            assert("bedrock"@ != "java_26_2_plus"@) by {
                assert("bedrock"@.len() != "java_26_2_plus"@.len());
            }
        },
    }
}

/// Reads a version tag such as `java_1_21_5`; unknown tags give `Java1_21_11Plus`.
pub fn normalize_version(text: &str) -> (v: GiveVersion)
    ensures
        v == version_of_tag(text@),
{
    if str_eq(text, "java_1_20_5") {
        GiveVersion::Java1_20_5
    } else if str_eq(text, "java_1_21") {
        GiveVersion::Java1_21
    } else if str_eq(text, "java_1_21_1") {
        GiveVersion::Java1_21_1
    } else if str_eq(text, "java_1_21_2") {
        GiveVersion::Java1_21_2
    } else if str_eq(text, "java_1_21_3") {
        GiveVersion::Java1_21_3
    } else if str_eq(text, "java_1_21_4") {
        GiveVersion::Java1_21_4
    } else if str_eq(text, "java_1_21_5") {
        GiveVersion::Java1_21_5
    } else if str_eq(text, "java_1_21_6") {
        GiveVersion::Java1_21_6
    } else if str_eq(text, "java_1_21_9") {
        GiveVersion::Java1_21_9
    } else if str_eq(text, "java_1_21_11_plus") {
        GiveVersion::Java1_21_11Plus
    } else if str_eq(text, "java_26_1") {
        GiveVersion::Java26_1
    } else if str_eq(text, "java_26_2_plus") {
        GiveVersion::Java26_2Plus
    } else if str_eq(text, "bedrock") {
        GiveVersion::Bedrock
    } else {
        GiveVersion::Java1_21_11Plus
    }
}

/// Small stable pieces of text: `"1b"` / `"0b"`.
pub open spec fn bool_byte_spec(value: bool) -> Seq<char> {
    if value {
        "1b"@
    } else {
        "0b"@
    }
}

/// The SNBT byte for a flag.
pub fn bool_byte(value: bool) -> (s: &'static str)
    ensures
        s@ == bool_byte_spec(value),
{
    if value {
        "1b"
    } else {
        "0b"
    }
}

/// One character as it appears inside a JSON string literal written by `serde_json`: `"` and
/// `\` are escaped with a backslash, the control characters below U+0020 use the short escapes
/// `\b \t \n \f \r` where there is one and `\u00xx` (lower-case hex) otherwise; every other
/// character is written as it is.
pub open spec fn json_escape(c: char) -> Seq<char> {
    let u = c as u32;
    if c == '"' {
        seq!['\\', '"']
    } else if c == '\\' {
        seq!['\\', '\\']
    } else if u == 8 {
        seq!['\\', 'b']
    } else if u == 9 {
        seq!['\\', 't']
    } else if u == 10 {
        seq!['\\', 'n']
    } else if u == 12 {
        seq!['\\', 'f']
    } else if u == 13 {
        seq!['\\', 'r']
    } else if u < 0x20 {
        seq!['\\', 'u', '0', '0', if u < 16 { '0' } else { '1' }, (if u % 16 < 10 { 48 + u % 16 } else { 87 + u % 16 }) as char]
    } else {
        seq![c]
    }
}

/// The escaped body of a JSON string literal.
pub open spec fn json_escaped(s: Seq<char>) -> Seq<char>
    decreases s.len(),
{
    if s.len() == 0 {
        seq![]
    } else {
        json_escaped(s.drop_last()) + json_escape(s.last())
    }
}

/// The JSON string literal of `s`, quotes included (`JSON.stringify` of a string).
pub open spec fn json_quoted(s: Seq<char>) -> Seq<char> {
    seq!['"'] + json_escaped(s) + seq!['"']
}

/// `serde_json::to_string` on a string: its JSON literal, as `json_quoted` spells out the
/// escaping table of `serde_json`'s serializer (writing a string into a `Vec` cannot fail).
#[verifier::external_body]
pub fn quote(value: &str) -> (s: String)
    ensures
        s@ == json_quoted(value@),
{
    serde_json::to_string(value).unwrap()
}

/// `'...'` around serialised JSON, with `\` and `'` escaped by a backslash.
pub open spec fn snbt_escaped(s: Seq<char>) -> Seq<char>
    decreases s.len(),
{
    if s.len() == 0 {
        seq![]
    } else {
        let c = s.last();
        snbt_escaped(s.drop_last()) + (if c == '\\' {
            seq!['\\', '\\']
        } else if c == '\'' {
            seq!['\\', '\'']
        } else {
            seq![c]
        })
    }
}

/// Reading an SNBT string body: a backslash takes the next character as it is.
pub open spec fn snbt_unescaped(s: Seq<char>) -> Seq<char>
    decreases s.len(),
{
    if s.len() == 0 {
        seq![]
    } else if s[0] == '\\' && s.len() >= 2 {
        seq![s[1]] + snbt_unescaped(s.subrange(2, s.len() as int))
    } else {
        seq![s[0]] + snbt_unescaped(s.drop_first())
    }
}

/// No `'` in an SNBT string body stands unescaped (so it cannot end the string early).
pub open spec fn no_bare_quote(s: Seq<char>) -> bool
    decreases s.len(),
{
    if s.len() == 0 {
        true
    } else if s[0] == '\\' && s.len() >= 2 {
        no_bare_quote(s.subrange(2, s.len() as int))
    } else {
        s[0] != '\'' && no_bare_quote(s.drop_first())
    }
}

proof fn lemma_snbt_escaped_concat(a: Seq<char>, b: Seq<char>)
    ensures
        snbt_escaped(a + b) == snbt_escaped(a) + snbt_escaped(b),
    decreases b.len(),
{
    if b.len() == 0 {
        assert(a + b =~= a);
        assert(snbt_escaped(a) + Seq::<char>::empty() =~= snbt_escaped(a));
    } else {
        lemma_snbt_escaped_concat(a, b.drop_last());
        assert((a + b).drop_last() =~= a + b.drop_last());
        assert((a + b).last() == b.last());
        let piece = if b.last() == '\\' {
            seq!['\\', '\\']
        } else if b.last() == '\'' {
            seq!['\\', '\'']
        } else {
            seq![b.last()]
        };
        assert(snbt_escaped(a + b) == snbt_escaped(a + b.drop_last()) + piece);
        assert(snbt_escaped(b) == snbt_escaped(b.drop_last()) + piece);
        assert(snbt_escaped(a) + snbt_escaped(b.drop_last()) + piece =~= snbt_escaped(a) + (snbt_escaped(
            b.drop_last(),
        ) + piece));
    }
}

/// The body of an SNBT string written by `snbt_json_string` reads back as the JSON text it
/// was made from, and holds no unescaped `'`.
pub proof fn lemma_snbt_roundtrip(s: Seq<char>)
    ensures
        snbt_unescaped(snbt_escaped(s)) == s,
        no_bare_quote(snbt_escaped(s)),
    decreases s.len(),
{
    if s.len() > 0 {
        let rest = s.drop_first();
        lemma_snbt_roundtrip(rest);
        assert(s =~= seq![s[0]] + rest);
        lemma_snbt_escaped_concat(seq![s[0]], rest);
        let one = seq![s[0]];
        assert(one.drop_last() =~= Seq::<char>::empty());
        assert(snbt_escaped(one.drop_last()) == Seq::<char>::empty());
        assert(one.last() == s[0]);
        assert(one.len() == 1);
        let r = snbt_escaped(rest);
        let e = snbt_escaped(s);
        if s[0] == '\\' {
            assert(snbt_escaped(one) =~= seq!['\\', '\\']);
            assert(e =~= seq!['\\', '\\'] + r);
            assert(e.subrange(2, e.len() as int) =~= r);
        } else if s[0] == '\'' {
            assert(snbt_escaped(one) =~= seq!['\\', '\'']);
            assert(e =~= seq!['\\', '\''] + r);
            assert(e.subrange(2, e.len() as int) =~= r);
        } else {
            assert(snbt_escaped(one) =~= seq![s[0]]);
            assert(e =~= seq![s[0]] + r);
            assert(e.drop_first() =~= r);
        }
        assert(snbt_unescaped(e) =~= s);
    }
}

/// Wraps serialised JSON text as an SNBT single-quoted string. The text between the quotes
/// holds no unescaped `'`, and reading it by the SNBT escapes gives back `json` exactly.
pub fn snbt_json_string(json: &str) -> (s: String)
    ensures
        s@ == seq!['\''] + snbt_escaped(json@) + seq!['\''],
        s@.len() >= 2 && s@[0] == '\'' && s@[s@.len() - 1] == '\'',
        snbt_unescaped(s@.subrange(1, s@.len() - 1)) == json@,
        no_bare_quote(s@.subrange(1, s@.len() - 1)),
{
    proof {
        lemma_snbt_roundtrip(json@);
    }
    let v = chars_of(json);
    let mut s = String::new();
    push_char(&mut s, '\'');
    let mut i: usize = 0;
    while i < v.len()
        invariant
            v@ == json@,
            i <= v@.len(),
            s@ == seq!['\''] + snbt_escaped(v@.subrange(0, i as int)),
        decreases v@.len() - i,
    {
        let c = v[i];
        if c == '\\' {
            push_char(&mut s, '\\');
            push_char(&mut s, '\\');
        } else if c == '\'' {
            push_char(&mut s, '\\');
            push_char(&mut s, '\'');
        } else {
            push_char(&mut s, c);
        }
        proof {
            let next = v@.subrange(0, i + 1);
            assert(next.drop_last() =~= v@.subrange(0, i as int));
        }
        i = i + 1;
        assert(s@ =~= seq!['\''] + snbt_escaped(v@.subrange(0, i as int)));
    }
    push_char(&mut s, '\'');
    assert(v@.subrange(0, v@.len() as int) =~= v@);
    assert(s@.subrange(1, s@.len() - 1) =~= snbt_escaped(json@));
    s
}

/// `value` trimmed, without a leading `minecraft:`.
pub open spec fn strip_namespace_spec(value: Seq<char>) -> Seq<char> {
    let t = trim_spec(value);
    match strip_prefix_spec(t, "minecraft:"@) {
        Some(rest) => rest,
        None => t,
    }
}

/// Trims `value` and drops a leading `minecraft:`.
pub fn strip_minecraft_namespace(value: &str) -> (s: String)
    ensures
        s@ == strip_namespace_spec(value@),
{
    let t = trim(value);
    match strip_prefix(t.as_str(), "minecraft:") {
        Some(rest) => rest,
        None => t,
    }
}

/// The bare id used inside components: empty for blank input, otherwise the namespaced id
/// with `minecraft:` dropped again (`mymod:x` stays, `minecraft:x` and `x` give `x`).
pub open spec fn component_id_spec(value: Seq<char>) -> Seq<char> {
    let t = trim_spec(value);
    if t.len() == 0 {
        seq![]
    } else {
        strip_namespace_spec(namespaced_spec(t))
    }
}

/// The bare component id of `value` (see `component_id_spec`).
pub fn component_id(value: &str) -> (s: String)
    ensures
        s@ == component_id_spec(value@),
{
    let t = trim(value);
    if t.unicode_len() == 0 {
        return String::new();
    }
    let n = namespaced(t.as_str());
    strip_minecraft_namespace(n.as_str())
}

/// The internal value of `text` in a table of (label, value) pairs: the value of the first
/// pair whose label or value is `text`, otherwise `text` itself.
pub open spec fn pair_value_spec(pairs: Seq<(&str, &str)>, text: Seq<char>) -> Seq<char>
    decreases pairs.len(),
{
    if pairs.len() == 0 {
        text
    } else if text == pairs[0].0@ || text == pairs[0].1@ {
        pairs[0].1@
    } else {
        pair_value_spec(pairs.drop_first(), text)
    }
}

/// Looks a label or an internal value up in a table of (label, value) pairs.
pub fn pair_value(pairs: &[(&str, &str)], text: &str) -> (s: String)
    ensures
        s@ == pair_value_spec(pairs@, text@),
{
    let mut i: usize = 0;
    assert(pairs@.subrange(0, pairs@.len() as int) =~= pairs@);
    while i < pairs.len()
        invariant
            i <= pairs@.len(),
            pair_value_spec(pairs@, text@) == pair_value_spec(pairs@.subrange(i as int, pairs@.len() as int), text@),
        decreases pairs@.len() - i,
    {
        let (label, value) = pairs[i];
        proof {
            let rest = pairs@.subrange(i as int, pairs@.len() as int);
            assert(rest.drop_first() =~= pairs@.subrange(i + 1, pairs@.len() as int));
            assert(rest[0] == pairs@[i as int]);
        }
        if str_eq(text, label) || str_eq(text, value) {
            return string_from(value);
        }
        i = i + 1;
    }
    string_from(text)
}

/// A block placement/break limit row of the give form.
pub struct BlockLimitRow {
    pub block: String,
    pub limit_type: String,
}

// ---------------------------------------------------------------- save versions

/// The parts of `s` between the separator `sep` (an empty text has one empty part).
pub open spec fn split_on(s: Seq<char>, sep: char) -> Seq<Seq<char>>
    decreases s.len(),
{
    if s.len() == 0 {
        seq![seq![]]
    } else {
        let r = split_on(s.drop_last(), sep);
        if s.last() == sep {
            r.push(seq![])
        } else {
            r.update(r.len() - 1, r.last().push(s.last()))
        }
    }
}

/// Splitting always gives at least one part (the empty text gives one empty part).
pub proof fn lemma_split_nonempty(s: Seq<char>, sep: char)
    ensures
        split_on(s, sep).len() >= 1,
    decreases s.len(),
{
    if s.len() > 0 {
        lemma_split_nonempty(s.drop_last(), sep);
    }
}

/// The value of a run of decimal digits.
pub open spec fn digits_value(s: Seq<char>) -> int
    decreases s.len(),
{
    if s.len() == 0 {
        0
    } else {
        digits_value(s.drop_last()) * 10 + (s.last() as int - 48)
    }
}

/// Every character is a decimal digit.
pub open spec fn all_digits(s: Seq<char>) -> bool {
    forall|i: int| 0 <= i < s.len() ==> is_digit(#[trigger] s[i])
}

/// `i64::from_str`: an optional sign, at least one digit and nothing else, within range.
pub open spec fn parse_i64_spec(s: Seq<char>) -> Option<int> {
    let signed = s.len() > 0 && (s[0] == '+' || s[0] == '-');
    let d = if signed { s.drop_first() } else { s };
    if d.len() == 0 || !all_digits(d) {
        None
    } else {
        let v = if signed && s[0] == '-' { -digits_value(d) } else { digits_value(d) };
        if i64::MIN <= v && v <= i64::MAX {
            Some(v)
        } else {
            None
        }
    }
}

/// All parts parse as `i64`: their values, in order.
pub open spec fn parse_parts(parts: Seq<Seq<char>>) -> Option<Seq<int>>
    decreases parts.len(),
{
    if parts.len() == 0 {
        Some(seq![])
    } else {
        match (parse_parts(parts.drop_last()), parse_i64_spec(parts.last())) {
            (Some(ns), Some(v)) => Some(ns.push(v)),
            _ => None,
        }
    }
}

/// The version band of a parsed version number: `26.1`, `26.2+` (and any later year) in the
/// year-based scheme; `1.20.5+`, `1.21` to `1.21.5`, `1.21.6`–`1.21.8`, `1.21.9`–`1.21.10`
/// and `1.21.11+` in the old one; `None` below the supported range or when malformed.
pub open spec fn version_of_numbers(ns: Seq<int>) -> Option<GiveVersion> {
    if ns.len() == 0 {
        None
    } else if ns[0] >= 2 {
        let major = ns[0];
        let minor = if ns.len() > 1 { ns[1] } else { 0 };
        if major == 26 && minor == 1 {
            Some(GiveVersion::Java26_1)
        } else if major >= 26 && minor >= 2 {
            Some(GiveVersion::Java26_2Plus)
        } else if major > 26 {
            Some(GiveVersion::Java26_2Plus)
        } else {
            None
        }
    } else if ns[0] != 1 || ns.len() < 2 {
        None
    } else {
        let minor = ns[1];
        let patch = if ns.len() > 2 { ns[2] } else { 0 };
        if minor == 20 {
            if patch >= 5 {
                Some(GiveVersion::Java1_20_5)
            } else {
                None
            }
        } else if minor != 21 {
            None
        } else if patch == 0 {
            Some(GiveVersion::Java1_21)
        } else if patch == 1 {
            Some(GiveVersion::Java1_21_1)
        } else if patch == 2 {
            Some(GiveVersion::Java1_21_2)
        } else if patch == 3 {
            Some(GiveVersion::Java1_21_3)
        } else if patch == 4 {
            Some(GiveVersion::Java1_21_4)
        } else if patch == 5 {
            Some(GiveVersion::Java1_21_5)
        } else if 6 <= patch && patch <= 8 {
            Some(GiveVersion::Java1_21_6)
        } else if 9 <= patch && patch <= 10 {
            Some(GiveVersion::Java1_21_9)
        } else {
            Some(GiveVersion::Java1_21_11Plus)
        }
    }
}

/// The version band of a save's raw version string such as `1.21.7` or `26.2`.
pub open spec fn detect_version_spec(raw: Seq<char>) -> Option<GiveVersion> {
    match parse_parts(split_on(trim_spec(raw), '.')) {
        Some(ns) => version_of_numbers(ns),
        None => None,
    }
}

proof fn lemma_digits_grow(s: Seq<char>, k: int)
    requires
        0 <= k <= s.len(),
        all_digits(s),
    ensures
        digits_value(s) >= digits_value(s.subrange(0, k)) >= 0,
    decreases s.len(),
{
    if s.len() == 0 {
        assert(s.subrange(0, k) =~= s);
    } else if k == s.len() {
        assert(s.subrange(0, k) =~= s);
        lemma_digits_grow(s.drop_last(), k - 1);
    } else {
        assert(all_digits(s.drop_last()));
        lemma_digits_grow(s.drop_last(), k);
        assert(s.drop_last().subrange(0, k) =~= s.subrange(0, k));
        assert(is_digit(s.last()));
    }
}

/// Parses a part as `i64` (see `parse_i64_spec`).
fn parse_i64_chars(s: &Vec<char>) -> (r: Option<i64>)
    ensures
        match parse_i64_spec(s@) {
            Some(v) => r matches Some(x) && x == v,
            None => r is None,
        },
{
    let n = s.len();
    let signed = n > 0 && (s[0] == '+' || s[0] == '-');
    let negative = signed && s[0] == '-';
    let start: usize = if signed { 1 } else { 0 };
    let ghost d = if signed { s@.drop_first() } else { s@ };
    if start >= n {
        return None;
    }
    assert(d =~= s@.subrange(start as int, n as int));
    let limit: u64 = if negative { 9223372036854775808 } else { 9223372036854775807 };
    let mut mag: u64 = 0;
    let mut i: usize = start;
    while i < n
        invariant
            n == s@.len(),
            start <= i <= n,
            start == (if signed { 1usize } else { 0usize }),
            d == s@.subrange(start as int, n as int),
            signed == (n > 0 && (s@[0] == '+' || s@[0] == '-')),
            negative == (signed && s@[0] == '-'),
            limit == (if negative { 9223372036854775808u64 } else { 9223372036854775807u64 }),
            all_digits(s@.subrange(start as int, i as int)),
            mag == digits_value(s@.subrange(start as int, i as int)),
            mag <= limit,
        decreases n - i,
    {
        let c = s[i];
        proof {
            let pre = s@.subrange(start as int, i as int);
            let next = s@.subrange(start as int, i + 1);
            assert(next.drop_last() =~= pre);
            assert(next.last() == c);
        }
        if !('0' <= c && c <= '9') {
            proof {
                assert(d[i - start] == c);
                assert(!all_digits(d));
            }
            return None;
        }
        let dv: u64 = (c as u64) - 48;
        if mag > (limit - dv) / 10 {
            proof {
                let next = s@.subrange(start as int, i + 1);
                assert(all_digits(next)) by {
                    assert forall|j: int| 0 <= j < next.len() implies is_digit(#[trigger] next[j]) by {
                        if j < next.len() - 1 {
                            assert(next[j] == s@.subrange(start as int, i as int)[j]);
                        }
                    }
                }
                assert(digits_value(next) > limit) by (nonlinear_arith)
                    requires
                        digits_value(next) == mag * 10 + dv,
                        mag > (limit - dv) / 10,
                        dv <= 9,
                        limit >= 9,
                ;
                assert(digits_value(next) == mag * 10 + dv);
                if all_digits(d) {
                    lemma_digits_grow(d, i + 1 - start);
                    assert(d.subrange(0, i + 1 - start) =~= next);
                    assert(digits_value(d) > limit);
                    assert(d.len() > 0);
                    let sd = if s@.len() > 0 && (s@[0] == '+' || s@[0] == '-') { s@.drop_first() } else { s@ };
                    assert(sd == d);
                    if negative {
                        assert(-digits_value(d) < i64::MIN);
                    } else {
                        assert(digits_value(d) > i64::MAX);
                    }
                }
            }
            return None;
        }
        mag = mag * 10 + dv;
        i = i + 1;
        proof {
            let next = s@.subrange(start as int, i as int);
            assert forall|j: int| 0 <= j < next.len() implies is_digit(#[trigger] next[j]) by {
                if j < next.len() - 1 {
                    assert(next[j] == s@.subrange(start as int, (i - 1) as int)[j]);
                }
            }
        }
    }
    assert(s@.subrange(start as int, n as int) =~= d);
    if negative {
        if mag == 9223372036854775808 {
            Some(i64::MIN)
        } else {
            Some(-(mag as i64))
        }
    } else {
        Some(mag as i64)
    }
}

/// The version band of a save's raw version string (see `version_of_numbers`); `None` when
/// it cannot be read or is below the supported range.
pub fn detect_give_version_from_raw(raw: &str) -> (r: Option<GiveVersion>)
    ensures
        r == detect_version_spec(raw@),
{
    let t = trim(raw);
    let v = chars_of(t.as_str());
    let mut parts: Vec<Vec<char>> = Vec::new();
    let mut cur: Vec<char> = Vec::new();
    let mut i: usize = 0;
    while i < v.len()
        invariant
            v@ == trim_spec(raw@),
            i <= v@.len(),
            split_on(v@.subrange(0, i as int), '.') == Seq::new(parts@.len(), |j: int| parts@[j]@).push(cur@),
        decreases v@.len() - i,
    {
        let c = v[i];
        let ghost before = Seq::new(parts@.len(), |j: int| parts@[j]@).push(cur@);
        proof {
            let next = v@.subrange(0, i + 1);
            assert(next.drop_last() =~= v@.subrange(0, i as int));
        }
        if c == '.' {
            let done = cur;
            parts.push(done);
            cur = Vec::new();
            assert(Seq::new(parts@.len(), |j: int| parts@[j]@).push(cur@) =~= before.push(seq![]));
        } else {
            cur.push(c);
            assert(Seq::new(parts@.len(), |j: int| parts@[j]@).push(cur@) =~= before.update(
                before.len() - 1,
                before.last().push(c),
            ));
        }
        i = i + 1;
    }
    assert(v@.subrange(0, v@.len() as int) =~= v@);
    parts.push(cur);
    let ghost all = Seq::new(parts@.len(), |j: int| parts@[j]@);
    assert(all == split_on(trim_spec(raw@), '.'));
    let mut ns: Vec<i64> = Vec::new();
    let mut k: usize = 0;
    while k < parts.len()
        invariant
            all == Seq::new(parts@.len(), |j: int| parts@[j]@),
            all == split_on(trim_spec(raw@), '.'),
            k <= parts@.len(),
            parse_parts(all.subrange(0, k as int)) == Some(Seq::new(ns@.len(), |j: int| ns@[j] as int)),
        decreases parts@.len() - k,
    {
        proof {
            let next = all.subrange(0, k + 1);
            assert(next.drop_last() =~= all.subrange(0, k as int));
            assert(next.last() == parts@[k as int]@);
        }
        match parse_i64_chars(&parts[k]) {
            Some(x) => {
                let ghost before = Seq::new(ns@.len(), |j: int| ns@[j] as int);
                ns.push(x);
                assert(Seq::new(ns@.len(), |j: int| ns@[j] as int) =~= before.push(x as int));
            },
            None => {
                proof {
                    let next = all.subrange(0, k + 1);
                    assert(parse_i64_spec(next.last()) is None);
                    assert(parse_parts(next) is None);
                    lemma_parse_parts_prefix_fail(all, k as int);
                }
                return None;
            },
        }
        k = k + 1;
    }
    assert(all.subrange(0, parts@.len() as int) =~= all);
    let ghost nums = Seq::new(ns@.len(), |j: int| ns@[j] as int);
    version_of_parsed(&ns)
}

proof fn lemma_parse_parts_prefix_fail(parts: Seq<Seq<char>>, k: int)
    requires
        0 <= k < parts.len(),
        parse_parts(parts.subrange(0, k + 1)) is None,
    ensures
        parse_parts(parts) is None,
    decreases parts.len(),
{
    if k + 1 == parts.len() {
        assert(parts.subrange(0, k + 1) =~= parts);
    } else {
        assert(parts.drop_last().subrange(0, k + 1) =~= parts.subrange(0, k + 1));
        lemma_parse_parts_prefix_fail(parts.drop_last(), k);
    }
}

fn version_of_parsed(ns: &Vec<i64>) -> (r: Option<GiveVersion>)
    ensures
        r == version_of_numbers(Seq::new(ns@.len(), |j: int| ns@[j] as int)),
{
    let ghost nums = Seq::new(ns@.len(), |j: int| ns@[j] as int);
    if ns.len() == 0 {
        return None;
    }
    if ns[0] >= 2 {
        let major = ns[0];
        let minor = if ns.len() > 1 { ns[1] } else { 0 };
        if major == 26 && minor == 1 {
            return Some(GiveVersion::Java26_1);
        }
        if major >= 26 && minor >= 2 {
            return Some(GiveVersion::Java26_2Plus);
        }
        if major > 26 {
            return Some(GiveVersion::Java26_2Plus);
        }
        return None;
    }
    if ns[0] != 1 || ns.len() < 2 {
        return None;
    }
    let minor = ns[1];
    let patch = if ns.len() > 2 { ns[2] } else { 0 };
    if minor == 20 {
        return if patch >= 5 { Some(GiveVersion::Java1_20_5) } else { None };
    }
    if minor != 21 {
        return None;
    }
    if patch == 0 {
        Some(GiveVersion::Java1_21)
    } else if patch == 1 {
        Some(GiveVersion::Java1_21_1)
    } else if patch == 2 {
        Some(GiveVersion::Java1_21_2)
    } else if patch == 3 {
        Some(GiveVersion::Java1_21_3)
    } else if patch == 4 {
        Some(GiveVersion::Java1_21_4)
    } else if patch == 5 {
        Some(GiveVersion::Java1_21_5)
    } else if 6 <= patch && patch <= 8 {
        Some(GiveVersion::Java1_21_6)
    } else if 9 <= patch && patch <= 10 {
        Some(GiveVersion::Java1_21_9)
    } else {
        Some(GiveVersion::Java1_21_11Plus)
    }
}

// ---------------------------------------------------------------- colours

/// The value of a hexadecimal digit.
pub open spec fn hex_value(c: char) -> int {
    if '0' <= c && c <= '9' {
        c as int - 48
    } else if 'a' <= c && c <= 'f' {
        c as int - 87
    } else {
        c as int - 55
    }
}

/// `#RRGGBB`: the colour when `value`, trimmed, is `#` and six hexadecimal digits.
pub open spec fn hex_color_spec(value: Seq<char>) -> Option<(u8, u8, u8)> {
    let t = trim_spec(value);
    if t.len() == 7 && t[0] == '#' && (forall|i: int| 1 <= i < 7 ==> is_hex_digit(#[trigger] t[i])) {
        Some((
            (hex_value(t[1]) * 16 + hex_value(t[2])) as u8,
            (hex_value(t[3]) * 16 + hex_value(t[4])) as u8,
            (hex_value(t[5]) * 16 + hex_value(t[6])) as u8,
        ))
    } else {
        None
    }
}

/// The message for a malformed colour.
pub open spec fn bad_color_message() -> Seq<char> {
    "颜色必须是 #RRGGBB"@
}

fn hex_digit_value(c: char) -> (v: u8)
    requires
        is_hex_digit(c),
    ensures
        v == hex_value(c),
        v < 16,
{
    if '0' <= c && c <= '9' {
        (c as u8) - 48
    } else if 'a' <= c && c <= 'f' {
        (c as u8) - 87
    } else {
        (c as u8) - 55
    }
}

/// Reads a `#RRGGBB` colour.
pub fn hex_to_rgb(value: &str) -> (r: Result<(u8, u8, u8), String>)
    ensures
        match hex_color_spec(value@) {
            Some(c) => r matches Ok(x) && x == c,
            None => r matches Err(m) && m@ == bad_color_message(),
        },
{
    let t = trim(value);
    let v = chars_of(t.as_str());
    if v.len() != 7 || v[0] != '#' {
        return Err(string_from("颜色必须是 #RRGGBB"));
    }
    let mut i: usize = 1;
    while i < 7
        invariant
            v@ == trim_spec(value@),
            v@.len() == 7,
            1 <= i <= 7,
            forall|j: int| 1 <= j < i ==> is_hex_digit(#[trigger] v@[j]),
        decreases 7 - i,
    {
        let c = v[i];
        if !(('0' <= c && c <= '9') || ('a' <= c && c <= 'f') || ('A' <= c && c <= 'F')) {
            return Err(string_from("颜色必须是 #RRGGBB"));
        }
        i = i + 1;
    }
    let r = hex_digit_value(v[1]) * 16 + hex_digit_value(v[2]);
    let g = hex_digit_value(v[3]) * 16 + hex_digit_value(v[4]);
    let b = hex_digit_value(v[5]) * 16 + hex_digit_value(v[6]);
    Ok((r, g, b))
}

/// The lower-case hexadecimal digit of `n < 16`.
pub open spec fn hex_lower(n: int) -> char {
    if n < 10 {
        (48 + n) as char
    } else {
        (87 + n) as char
    }
}

/// `#rrggbb` in lower case.
pub open spec fn rgb_hex_spec(c: (u8, u8, u8)) -> Seq<char> {
    seq![
        '#',
        hex_lower(c.0 as int / 16),
        hex_lower(c.0 as int % 16),
        hex_lower(c.1 as int / 16),
        hex_lower(c.1 as int % 16),
        hex_lower(c.2 as int / 16),
        hex_lower(c.2 as int % 16),
    ]
}

fn hex_lower_char(n: u8) -> (c: char)
    requires
        n < 16,
    ensures
        c == hex_lower(n as int),
{
    if n < 10 {
        (48u8 + n) as char
    } else {
        (87u8 + n) as char
    }
}

/// Writes a colour as `#rrggbb`.
pub fn rgb_to_hex(value: (u8, u8, u8)) -> (s: String)
    ensures
        s@ == rgb_hex_spec(value),
{
    let mut s = String::new();
    push_char(&mut s, '#');
    push_char(&mut s, hex_lower_char(value.0 / 16));
    push_char(&mut s, hex_lower_char(value.0 % 16));
    push_char(&mut s, hex_lower_char(value.1 / 16));
    push_char(&mut s, hex_lower_char(value.1 % 16));
    push_char(&mut s, hex_lower_char(value.2 / 16));
    push_char(&mut s, hex_lower_char(value.2 % 16));
    assert(s@ =~= rgb_hex_spec(value));
    s
}

/// Channel `i` of `q + 1` evenly spaced steps from `a` to `b`, rounded half away from zero:
/// `round((a·(q−i) + b·i) / q)`.
/// The rounding is of the exact rational value, so a channel exactly halfway between two
/// integers always goes up.
pub open spec fn lerp_channel(a: int, b: int, i: int, q: int) -> int {
    (2 * (a * (q - i) + b * i) + q) / (2 * q)
}

/// The gradient of `count` colours from `a` to `b`.
pub open spec fn gradient(a: (u8, u8, u8), b: (u8, u8, u8), count: int) -> Seq<Seq<char>> {
    if count <= 0 {
        seq![]
    } else if count == 1 {
        seq![rgb_hex_spec(a)]
    } else {
        Seq::new(
            count as nat,
            |i: int|
                rgb_hex_spec(
                    (
                        lerp_channel(a.0 as int, b.0 as int, i, count - 1) as u8,
                        lerp_channel(a.1 as int, b.1 as int, i, count - 1) as u8,
                        lerp_channel(a.2 as int, b.2 as int, i, count - 1) as u8,
                    ),
                ),
        )
    }
}

/// A gradient starts with its first colour and ends with its last.
pub proof fn lemma_gradient_endpoints(a: (u8, u8, u8), b: (u8, u8, u8), count: int)
    requires
        count >= 2,
    ensures
        gradient(a, b, count)[0] == rgb_hex_spec(a),
        gradient(a, b, count)[count - 1] == rgb_hex_spec(b),
{
    let q = count - 1;
    assert(lerp_channel(a.0 as int, b.0 as int, 0, q) == a.0) by {
        assert((2 * (a.0 as int * (q - 0) + b.0 as int * 0) + q) / (2 * q) == a.0 as int) by (nonlinear_arith)
            requires
                q >= 1,
        ;
    }
    assert(lerp_channel(a.1 as int, b.1 as int, 0, q) == a.1) by {
        assert((2 * (a.1 as int * (q - 0) + b.1 as int * 0) + q) / (2 * q) == a.1 as int) by (nonlinear_arith)
            requires
                q >= 1,
        ;
    }
    assert(lerp_channel(a.2 as int, b.2 as int, 0, q) == a.2) by {
        assert((2 * (a.2 as int * (q - 0) + b.2 as int * 0) + q) / (2 * q) == a.2 as int) by (nonlinear_arith)
            requires
                q >= 1,
        ;
    }
    assert(lerp_channel(a.0 as int, b.0 as int, q, q) == b.0) by {
        assert((2 * (a.0 as int * (q - q) + b.0 as int * q) + q) / (2 * q) == b.0 as int) by (nonlinear_arith)
            requires
                q >= 1,
        ;
    }
    assert(lerp_channel(a.1 as int, b.1 as int, q, q) == b.1) by {
        assert((2 * (a.1 as int * (q - q) + b.1 as int * q) + q) / (2 * q) == b.1 as int) by (nonlinear_arith)
            requires
                q >= 1,
        ;
    }
    assert(lerp_channel(a.2 as int, b.2 as int, q, q) == b.2) by {
        assert((2 * (a.2 as int * (q - q) + b.2 as int * q) + q) / (2 * q) == b.2 as int) by (nonlinear_arith)
            requires
                q >= 1,
        ;
    }
    assert(((a.0 as int) as u8, (a.1 as int) as u8, (a.2 as int) as u8) == a);
    assert(((b.0 as int) as u8, (b.1 as int) as u8, (b.2 as int) as u8) == b);
}

/// Writing a colour and reading it back gives the same colour.
pub proof fn lemma_hex_roundtrip(c: (u8, u8, u8))
    ensures
        hex_color_spec(rgb_hex_spec(c)) == Some(c),
{
    let t = rgb_hex_spec(c);
    assert(!crate::text::is_white_space(t[0]));
    assert(!crate::text::is_white_space(t[6]));
    assert(crate::text::trim_start_spec(t) == t);
    assert(crate::text::trim_end_spec(t) == t);
    assert forall|i: int| 1 <= i < 7 implies is_hex_digit(#[trigger] t[i]) by {}
    assert(hex_value(hex_lower(c.0 as int / 16)) * 16 + hex_value(hex_lower(c.0 as int % 16)) == c.0);
    assert(hex_value(hex_lower(c.1 as int / 16)) * 16 + hex_value(hex_lower(c.1 as int % 16)) == c.1);
    assert(hex_value(hex_lower(c.2 as int / 16)) * 16 + hex_value(hex_lower(c.2 as int % 16)) == c.2);
}

fn lerp_u8(a: u8, b: u8, i: i64, q: i64) -> (c: u8)
    requires
        0 <= i <= q,
        q >= 1,
    ensures
        c == lerp_channel(a as int, b as int, i as int, q as int),
{
    let qq = q as u128;
    let ii = i as u128;
    assert(a as int * (q - i) <= 255 * (q - i) && b as int * i <= 255 * i) by (nonlinear_arith)
        requires
            0 <= i <= q,
            a <= 255,
            b <= 255,
    ;
    let p: u128 = (a as u128) * (qq - ii) + (b as u128) * ii;
    assert(p == a as int * (q - i) + b as int * i);
    assert(p <= 255 * q);
    assert((2 * p + q) / (2 * q) <= 255) by (nonlinear_arith)
        requires
            p <= 255 * q,
            q >= 1,
    ;
    ((2 * p + qq) / (2 * qq)) as u8
}

/// A gradient of `count` colours from `start` to `end` (both `#RRGGBB`), evenly spaced and
/// rounded per channel. No colours for a count of zero or less; a malformed colour is an
/// error (only checked when there is something to draw).
pub fn color_lerp(start: &str, end: &str, count: i64) -> (r: Result<Vec<String>, String>)
    ensures
        count <= 0 ==> (r matches Ok(v) && v@.len() == 0),
        count > 0 ==> match (hex_color_spec(start@), hex_color_spec(end@)) {
            (None, _) => (r matches Err(m) && m@ == bad_color_message()),
            (Some(_), None) => (r matches Err(m) && m@ == bad_color_message()),
            (Some(a), Some(b)) => (r matches Ok(v) && Seq::new(v@.len(), |i: int| v@[i]@) == gradient(
                a,
                b,
                count as int,
            )),
        },
{
    if count <= 0 {
        return Ok(Vec::new());
    }
    let a = match hex_to_rgb(start) {
        Ok(c) => c,
        Err(e) => return Err(e),
    };
    let b = match hex_to_rgb(end) {
        Ok(c) => c,
        Err(e) => return Err(e),
    };
    if count == 1 {
        let mut out: Vec<String> = Vec::new();
        out.push(rgb_to_hex(a));
        assert(Seq::new(out@.len(), |i: int| out@[i]@) =~= gradient(a, b, count as int));
        return Ok(out);
    }
    let q = count - 1;
    let mut out: Vec<String> = Vec::new();
    let mut i: i64 = 0;
    while i < count
        invariant
            count >= 2,
            q == count - 1,
            0 <= i <= count,
            out@.len() == i,
            forall|j: int| 0 <= j < i ==> (#[trigger] out@[j])@ == gradient(a, b, count as int)[j],
        decreases count - i,
    {
        let c = (lerp_u8(a.0, b.0, i, q), lerp_u8(a.1, b.1, i, q), lerp_u8(a.2, b.2, i, q));
        out.push(rgb_to_hex(c));
        i = i + 1;
    }
    assert(Seq::new(out@.len(), |i: int| out@[i]@) =~= gradient(a, b, count as int));
    Ok(out)
}

/// A text shadow colour as the packed signed integer of the pre-1.21.4 syntax: the alpha
/// byte, then red, green and blue, read as a 32-bit two's complement number.
pub open spec fn shadow_int_spec(alpha: int, c: (u8, u8, u8)) -> int {
    let v = alpha * 16777216 + c.0 * 65536 + c.1 * 256 + c.2;
    if v >= 2147483648 {
        v - 4294967296
    } else {
        v
    }
}

/// The packed shadow colour of `#RRGGBB` at an opacity given in percent (held to
/// `0..=100`, see `Decimal::alpha`); a malformed colour is an error.
pub fn shadow_color_int(hex_color: &str, alpha_percent: Decimal) -> (r: Result<i64, String>)
    ensures
        match hex_color_spec(hex_color@) {
            Some(c) => r == Ok::<i64, String>(shadow_int_spec(alpha_percent.alpha(), c) as i64),
            None => r matches Err(m) && m@ == bad_color_message(),
        },
{
    let (red, green, blue) = match hex_to_rgb(hex_color) {
        Ok(c) => c,
        Err(e) => return Err(e),
    };
    let alpha = alpha_percent.alpha_byte() as i64;
    let value: i64 = alpha * 16777216 + red as i64 * 65536 + green as i64 * 256 + blue as i64;
    if value >= 2147483648 {
        Ok(value - 4294967296)
    } else {
        Ok(value)
    }
}

// ---------------------------------------------------------------- command text helpers

/// `cmd` with a leading `/` when asked for.
pub open spec fn slashed(with_slash: bool, cmd: Seq<char>) -> Seq<char> {
    if with_slash {
        seq!['/'] + cmd
    } else {
        cmd
    }
}

/// Prefixes `/` when the form asks for it.
pub fn finish_command(with_slash: bool, cmd: String) -> (s: String)
    ensures
        s@ == slashed(with_slash, cmd@),
{
    if with_slash {
        let mut s = string_from("/");
        push_str(&mut s, cmd.as_str());
        proof {
            reveal_strlit("/");
            assert(s@ =~= seq!['/'] + cmd@);
        }
        s
    } else {
        cmd
    }
}

/// Three coordinates separated by spaces.
pub open spec fn joined3(c: [String; 3]) -> Seq<char> {
    c@[0]@ + " "@ + c@[1]@ + " "@ + c@[2]@
}

/// Joins three coordinates with spaces.
pub fn join_coords(c: &[String; 3]) -> (s: String)
    ensures
        s@ == joined3(*c),
{
    let mut s = string_from(c[0].as_str());
    push_str(&mut s, " ");
    push_str(&mut s, c[1].as_str());
    push_str(&mut s, " ");
    push_str(&mut s, c[2].as_str());
    s
}

/// The text component `{"text":...}` holding `text`, as compact JSON.
pub open spec fn text_component_spec(text: Seq<char>) -> Seq<char> {
    "{\"text\":"@ + json_quoted(text) + "}"@
}

/// The JSON text component of plain text (what `json!({"text": text})` serialises to).
pub fn text_component(text: &str) -> (s: String)
    ensures
        s@ == text_component_spec(text@),
{
    let mut s = string_from("{\"text\":");
    let q = quote(text);
    push_str(&mut s, q.as_str());
    push_str(&mut s, "}");
    s
}

/// `s` starts with the word `w`: `w` followed by nothing or by white space.
pub open spec fn starts_with_word(s: Seq<char>, w: Seq<char>) -> bool {
    crate::text::starts_with(s, w) && (s.len() == w.len() || crate::text::is_white_space(s[w.len() as int]))
}

} // verus!
