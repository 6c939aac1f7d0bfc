//! Display names of processors, as the front ends show them, and the
//! lookup from a display name back to its processor.
use vstd::prelude::*;
use crate::process::PermuteNodeName;
use crate::text::str_equal;

verus! {

/// The display name of a processor.
pub open spec fn display_name(name: PermuteNodeName) -> Seq<char> {
    match name {
        PermuteNodeName::Reverse => "Reverse"@,
        PermuteNodeName::Chorus => "Chorus"@,
        PermuteNodeName::Phaser => "Phaser"@,
        PermuteNodeName::DoubleSpeed => "Double speed"@,
        PermuteNodeName::HalfSpeed => "Half speed"@,
        PermuteNodeName::RandomPitch => "Random pitch"@,
        PermuteNodeName::GranularTimeStretch => "Granular stretch"@,
        PermuteNodeName::Reverb => "Reverb"@,
        PermuteNodeName::Fuzz => "Fuzz"@,
        PermuteNodeName::Saturate => "Saturate"@,
        PermuteNodeName::Flutter => "Flutter"@,
        PermuteNodeName::Flange => "Flange"@,
        PermuteNodeName::MetallicDelay => "Metallic delay"@,
        PermuteNodeName::RhythmicDelay => "Rhythmic delay"@,
        PermuteNodeName::Wow => "Wow"@,
        PermuteNodeName::Normalise => "Normalise"@,
        PermuteNodeName::Trim => "Trim"@,
        PermuteNodeName::SampleRateConversionHigh => "Sample rate conversion high"@,
        PermuteNodeName::SampleRateConversionOriginal => "Sample rate conversion low"@,
        PermuteNodeName::Tremolo => "Tremolo"@,
        PermuteNodeName::Lazer => "Lazer"@,
        PermuteNodeName::Filter => "Filter"@,
        PermuteNodeName::OscillatingFilter => "Oscillating filter"@,
        PermuteNodeName::LineFilter => "Line filter"@,
        PermuteNodeName::CrossGain => "Cross gain"@,
        PermuteNodeName::CrossFilter => "Cross filter"@,
        PermuteNodeName::CrossDistort => "Cross distort"@,
        PermuteNodeName::BlurStretch => "Blur stretch"@,
    }
}

/// Whether the lookup by display name knows a processor. The processors
/// added to the catalogue after the lookup table was written (Tremolo,
/// Lazer, the filters, the cross processors and BlurStretch) are not known
/// to it.
pub open spec fn found_by_display_name(name: PermuteNodeName) -> bool {
    match name {
        PermuteNodeName::Reverse => true,
        PermuteNodeName::Chorus => true,
        PermuteNodeName::Phaser => true,
        PermuteNodeName::DoubleSpeed => true,
        PermuteNodeName::HalfSpeed => true,
        PermuteNodeName::RandomPitch => true,
        PermuteNodeName::GranularTimeStretch => true,
        PermuteNodeName::Reverb => true,
        PermuteNodeName::Fuzz => true,
        PermuteNodeName::Saturate => true,
        PermuteNodeName::Flutter => true,
        PermuteNodeName::Flange => true,
        PermuteNodeName::MetallicDelay => true,
        PermuteNodeName::RhythmicDelay => true,
        PermuteNodeName::Wow => true,
        PermuteNodeName::Normalise => true,
        PermuteNodeName::Trim => true,
        PermuteNodeName::SampleRateConversionHigh => true,
        PermuteNodeName::SampleRateConversionOriginal => true,
        PermuteNodeName::Tremolo => false,
        PermuteNodeName::Lazer => false,
        PermuteNodeName::Filter => false,
        PermuteNodeName::OscillatingFilter => false,
        PermuteNodeName::LineFilter => false,
        PermuteNodeName::CrossGain => false,
        PermuteNodeName::CrossFilter => false,
        PermuteNodeName::CrossDistort => false,
        PermuteNodeName::BlurStretch => false,
    }
}

/// The processor that the lookup finds for a display name, trying the
/// known names in table order.
pub open spec fn processor_from_display(s: Seq<char>) -> Option<PermuteNodeName> {
    if s == display_name(PermuteNodeName::Reverse) {
        Some(PermuteNodeName::Reverse)
    } else if s == display_name(PermuteNodeName::Chorus) {
        Some(PermuteNodeName::Chorus)
    } else if s == display_name(PermuteNodeName::Phaser) {
        Some(PermuteNodeName::Phaser)
    } else if s == display_name(PermuteNodeName::DoubleSpeed) {
        Some(PermuteNodeName::DoubleSpeed)
    } else if s == display_name(PermuteNodeName::Flutter) {
        Some(PermuteNodeName::Flutter)
    } else if s == display_name(PermuteNodeName::Flange) {
        Some(PermuteNodeName::Flange)
    } else if s == display_name(PermuteNodeName::HalfSpeed) {
        Some(PermuteNodeName::HalfSpeed)
    } else if s == display_name(PermuteNodeName::RandomPitch) {
        Some(PermuteNodeName::RandomPitch)
    } else if s == display_name(PermuteNodeName::MetallicDelay) {
        Some(PermuteNodeName::MetallicDelay)
    } else if s == display_name(PermuteNodeName::RhythmicDelay) {
        Some(PermuteNodeName::RhythmicDelay)
    } else if s == display_name(PermuteNodeName::GranularTimeStretch) {
        Some(PermuteNodeName::GranularTimeStretch)
    } else if s == display_name(PermuteNodeName::Reverb) {
        Some(PermuteNodeName::Reverb)
    } else if s == display_name(PermuteNodeName::Fuzz) {
        Some(PermuteNodeName::Fuzz)
    } else if s == display_name(PermuteNodeName::Saturate) {
        Some(PermuteNodeName::Saturate)
    } else if s == display_name(PermuteNodeName::Wow) {
        Some(PermuteNodeName::Wow)
    } else if s == display_name(PermuteNodeName::Normalise) {
        Some(PermuteNodeName::Normalise)
    } else if s == display_name(PermuteNodeName::Trim) {
        Some(PermuteNodeName::Trim)
    } else if s == display_name(PermuteNodeName::SampleRateConversionHigh) {
        Some(PermuteNodeName::SampleRateConversionHigh)
    } else if s == display_name(PermuteNodeName::SampleRateConversionOriginal) {
        Some(PermuteNodeName::SampleRateConversionOriginal)
    } else {
        None
    }
}

/// The display name of a processor.
pub fn get_processor_display_name(name: PermuteNodeName) -> (r: String)
    ensures
        r@ == display_name(name),
{
    match name {
        PermuteNodeName::Reverse => String::from_str("Reverse"),
        PermuteNodeName::Chorus => String::from_str("Chorus"),
        PermuteNodeName::Phaser => String::from_str("Phaser"),
        PermuteNodeName::DoubleSpeed => String::from_str("Double speed"),
        PermuteNodeName::HalfSpeed => String::from_str("Half speed"),
        PermuteNodeName::RandomPitch => String::from_str("Random pitch"),
        PermuteNodeName::GranularTimeStretch => String::from_str("Granular stretch"),
        PermuteNodeName::Reverb => String::from_str("Reverb"),
        PermuteNodeName::Fuzz => String::from_str("Fuzz"),
        PermuteNodeName::Saturate => String::from_str("Saturate"),
        PermuteNodeName::Flutter => String::from_str("Flutter"),
        PermuteNodeName::Flange => String::from_str("Flange"),
        PermuteNodeName::MetallicDelay => String::from_str("Metallic delay"),
        PermuteNodeName::RhythmicDelay => String::from_str("Rhythmic delay"),
        PermuteNodeName::Wow => String::from_str("Wow"),
        PermuteNodeName::Normalise => String::from_str("Normalise"),
        PermuteNodeName::Trim => String::from_str("Trim"),
        PermuteNodeName::SampleRateConversionHigh => String::from_str("Sample rate conversion high"),
        PermuteNodeName::SampleRateConversionOriginal => String::from_str("Sample rate conversion low"),
        PermuteNodeName::Tremolo => String::from_str("Tremolo"),
        PermuteNodeName::Lazer => String::from_str("Lazer"),
        PermuteNodeName::Filter => String::from_str("Filter"),
        PermuteNodeName::OscillatingFilter => String::from_str("Oscillating filter"),
        PermuteNodeName::LineFilter => String::from_str("Line filter"),
        PermuteNodeName::CrossGain => String::from_str("Cross gain"),
        PermuteNodeName::CrossFilter => String::from_str("Cross filter"),
        PermuteNodeName::CrossDistort => String::from_str("Cross distort"),
        PermuteNodeName::BlurStretch => String::from_str("Blur stretch"),
    }
}

/// The processor with the given display name, or the message
/// `"<name> not found"`.
pub fn get_processor_from_display_name(name: &str) -> (r: Result<PermuteNodeName, String>)
    ensures
        match r {
            Ok(n) => processor_from_display(name@) == Some(n),
            Err(e) => processor_from_display(name@) is None && e@ == name@ + " not found"@,
        },
{
    if str_equal(name, "Reverse") {
        return Ok(PermuteNodeName::Reverse);
    }
    if str_equal(name, "Chorus") {
        return Ok(PermuteNodeName::Chorus);
    }
    if str_equal(name, "Phaser") {
        return Ok(PermuteNodeName::Phaser);
    }
    if str_equal(name, "Double speed") {
        return Ok(PermuteNodeName::DoubleSpeed);
    }
    if str_equal(name, "Flutter") {
        return Ok(PermuteNodeName::Flutter);
    }
    if str_equal(name, "Flange") {
        return Ok(PermuteNodeName::Flange);
    }
    if str_equal(name, "Half speed") {
        return Ok(PermuteNodeName::HalfSpeed);
    }
    if str_equal(name, "Random pitch") {
        return Ok(PermuteNodeName::RandomPitch);
    }
    if str_equal(name, "Metallic delay") {
        return Ok(PermuteNodeName::MetallicDelay);
    }
    if str_equal(name, "Rhythmic delay") {
        return Ok(PermuteNodeName::RhythmicDelay);
    }
    if str_equal(name, "Granular stretch") {
        return Ok(PermuteNodeName::GranularTimeStretch);
    }
    if str_equal(name, "Reverb") {
        return Ok(PermuteNodeName::Reverb);
    }
    if str_equal(name, "Fuzz") {
        return Ok(PermuteNodeName::Fuzz);
    }
    if str_equal(name, "Saturate") {
        return Ok(PermuteNodeName::Saturate);
    }
    if str_equal(name, "Wow") {
        return Ok(PermuteNodeName::Wow);
    }
    if str_equal(name, "Normalise") {
        return Ok(PermuteNodeName::Normalise);
    }
    if str_equal(name, "Trim") {
        return Ok(PermuteNodeName::Trim);
    }
    if str_equal(name, "Sample rate conversion high") {
        return Ok(PermuteNodeName::SampleRateConversionHigh);
    }
    if str_equal(name, "Sample rate conversion low") {
        return Ok(PermuteNodeName::SampleRateConversionOriginal);
    }
    let mut e = String::from_str(name);
    e.append(" not found");
    Err(e)
}

/// Length, first and last character of a name.
pub open spec fn name_signature(s: Seq<char>) -> (int, char, char) {
    (s.len() as int, s[0], s[s.len() - 1])
}

/// The signature of each display name, written out.
pub open spec fn display_signature(name: PermuteNodeName) -> (int, char, char) {
    match name {
        PermuteNodeName::Reverse => (7, 'R', 'e'),
        PermuteNodeName::Chorus => (6, 'C', 's'),
        PermuteNodeName::Phaser => (6, 'P', 'r'),
        PermuteNodeName::DoubleSpeed => (12, 'D', 'd'),
        PermuteNodeName::HalfSpeed => (10, 'H', 'd'),
        PermuteNodeName::RandomPitch => (12, 'R', 'h'),
        PermuteNodeName::GranularTimeStretch => (16, 'G', 'h'),
        PermuteNodeName::Reverb => (6, 'R', 'b'),
        PermuteNodeName::Fuzz => (4, 'F', 'z'),
        PermuteNodeName::Saturate => (8, 'S', 'e'),
        PermuteNodeName::Flutter => (7, 'F', 'r'),
        PermuteNodeName::Flange => (6, 'F', 'e'),
        PermuteNodeName::MetallicDelay => (14, 'M', 'y'),
        PermuteNodeName::RhythmicDelay => (14, 'R', 'y'),
        PermuteNodeName::Wow => (3, 'W', 'w'),
        PermuteNodeName::Normalise => (9, 'N', 'e'),
        PermuteNodeName::Trim => (4, 'T', 'm'),
        PermuteNodeName::SampleRateConversionHigh => (27, 'S', 'h'),
        PermuteNodeName::SampleRateConversionOriginal => (26, 'S', 'w'),
        PermuteNodeName::Tremolo => (7, 'T', 'o'),
        PermuteNodeName::Lazer => (5, 'L', 'r'),
        PermuteNodeName::Filter => (6, 'F', 'r'),
        PermuteNodeName::OscillatingFilter => (18, 'O', 'r'),
        PermuteNodeName::LineFilter => (11, 'L', 'r'),
        PermuteNodeName::CrossGain => (10, 'C', 'n'),
        PermuteNodeName::CrossFilter => (12, 'C', 'r'),
        PermuteNodeName::CrossDistort => (13, 'C', 't'),
        PermuteNodeName::BlurStretch => (12, 'B', 'h'),
    }
}

proof fn lemma_display_signature(name: PermuteNodeName)
    ensures
        name_signature(display_name(name)) == display_signature(name),
{
    reveal_strlit("Reverse");
    reveal_strlit("Chorus");
    reveal_strlit("Phaser");
    reveal_strlit("Double speed");
    reveal_strlit("Half speed");
    reveal_strlit("Random pitch");
    reveal_strlit("Granular stretch");
    reveal_strlit("Reverb");
    reveal_strlit("Fuzz");
    reveal_strlit("Saturate");
    reveal_strlit("Flutter");
    reveal_strlit("Flange");
    reveal_strlit("Metallic delay");
    reveal_strlit("Rhythmic delay");
    reveal_strlit("Wow");
    reveal_strlit("Normalise");
    reveal_strlit("Trim");
    reveal_strlit("Sample rate conversion high");
    reveal_strlit("Sample rate conversion low");
    reveal_strlit("Tremolo");
    reveal_strlit("Lazer");
    reveal_strlit("Filter");
    reveal_strlit("Oscillating filter");
    reveal_strlit("Line filter");
    reveal_strlit("Cross gain");
    reveal_strlit("Cross filter");
    reveal_strlit("Cross distort");
    reveal_strlit("Blur stretch");
}

/// The display names of the processors are pairwise distinct.
pub proof fn lemma_display_names_distinct(a: PermuteNodeName, b: PermuteNodeName)
    ensures
        display_name(a) == display_name(b) ==> a == b,
{
    lemma_display_signature(a);
    lemma_display_signature(b);
}

/// Looking up the display name of a processor that the lookup knows gives
/// back that processor; whatever the lookup finds, its display name is the
/// name looked up.
pub proof fn lemma_display_name_round_trip(name: PermuteNodeName, s: Seq<char>)
    ensures
        found_by_display_name(name) ==> processor_from_display(display_name(name)) == Some(name),
        processor_from_display(s) matches Some(n) ==> display_name(n) == s && found_by_display_name(n),
        !found_by_display_name(name) ==> processor_from_display(display_name(name)) is None,
{
    assert forall|m: PermuteNodeName| display_name(m) == display_name(name) implies m == name by {
        lemma_display_names_distinct(m, name);
    }
}

} // verus!
