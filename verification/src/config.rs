//! The per-fan configuration and the INI file it is read from.
//!
//! Each fan `i` (counting from 1) has a section `[Fan<i>]` with the keys
//! `low_temp`, `high_temp`, `speed_curve`, `always_full_speed`,
//! `speed_tolerance_percent` and `settling_time_factor`. The last two are
//! floating-point factors; this library checks that they are present and
//! hands their text to the daemon, which parses and range-checks them.
use ini::{Ini, Properties};
use vstd::prelude::*;

use crate::error::ConfigError;
use crate::text::{digits_value, is_decimal_digit, parse_bool, parse_u8, parsed_bool, parsed_unsigned, same_text};

verus! {

#[verifier::external_type_specification]
#[verifier::external_body]
pub struct ExIni(Ini);

#[verifier::external_type_specification]
#[verifier::external_body]
pub struct ExProperties(Properties);

/// The named sections of a loaded INI document: for each section name, the
/// first value of each key of the first section of that name.
pub uninterp spec fn ini_sections(ini: Ini) -> Map<Seq<char>, Map<Seq<char>, Seq<char>>>;

/// The first value of each key of an INI section.
pub uninterp spec fn property_values(props: Properties) -> Map<Seq<char>, Seq<char>>;

/// What `Ini::load_from_str` makes of a text: its named sections as
/// `ini_sections` describes them, or nothing when the text does not parse.
pub uninterp spec fn parsed_ini(text: Seq<char>) -> Option<Map<Seq<char>, Map<Seq<char>, Seq<char>>>>;

/// `Ini::load_from_str` with the crate's default options: the document, or
/// the crate's parse error. Whether a text parses, and into what, is not
/// spelled out here: `parsed_ini` names it.
#[verifier::external_body]
fn load_ini(text: &str) -> (res: Result<Ini, ini::ParseError>)
    ensures
        res is Ok <==> parsed_ini(text@) is Some,
        res matches Ok(doc) ==> parsed_ini(text@) == Some(ini_sections(doc)),
{
    Ini::load_from_str(text)
}

/// `Ini::section(Some(name))`: the first section called `name`, if any.
#[verifier::external_body]
fn ini_section<'a>(doc: &'a Ini, name: &str) -> (res: Option<&'a Properties>)
    ensures
        res is Some <==> ini_sections(*doc).contains_key(name@),
        res matches Some(props) ==> property_values(*props) == ini_sections(*doc)[name@],
{
    doc.section(Some(name))
}

/// `Properties::get`: the first value of `key`, if the section has the key.
#[verifier::external_body]
fn property<'a>(props: &'a Properties, key: &str) -> (res: Option<&'a str>)
    ensures
        res is Some <==> property_values(*props).contains_key(key@),
        res matches Some(v) ==> v@ == property_values(*props)[key@],
{
    props.get(key)
}

/// The order in which a document holds its named sections, each with the
/// keys of its values in order: the order in which `Ini::write_to` writes
/// them.
pub uninterp spec fn ini_layout(ini: Ini) -> Seq<(Seq<char>, Seq<Seq<char>>)>;

/// Where the first section called `name` stands in a layout, if anywhere.
pub open spec fn first_position(layout: Seq<(Seq<char>, Seq<Seq<char>>)>, name: Seq<char>) -> Option<nat>
    decreases layout.len(),
{
    if layout.len() == 0 {
        None
    } else if layout[0].0 == name {
        Some(0)
    } else {
        match first_position(layout.drop_first(), name) {
            Some(i) => Some(i + 1),
            None => None,
        }
    }
}

/// `keys` without any occurrence of `key`.
pub open spec fn without_key(keys: Seq<Seq<char>>, key: Seq<char>) -> Seq<Seq<char>>
    decreases keys.len(),
{
    if keys.len() == 0 {
        keys
    } else if keys[0] == key {
        without_key(keys.drop_first(), key)
    } else {
        seq![keys[0]] + without_key(keys.drop_first(), key)
    }
}

/// The layout after `key` is set in the first section called `section`: the
/// key's old values are dropped and the new one comes last in that section;
/// a section that was not there is added last.
pub open spec fn layout_set(layout: Seq<(Seq<char>, Seq<Seq<char>>)>, section: Seq<char>, key: Seq<char>) -> Seq<
    (Seq<char>, Seq<Seq<char>>),
> {
    match first_position(layout, section) {
        None => layout.push((section, seq![key])),
        Some(i) => layout.update(i as int, (section, without_key(layout[i as int].1, key).push(key))),
    }
}

/// A document without named sections.
pub open spec fn no_sections() -> Map<Seq<char>, Map<Seq<char>, Seq<char>>> {
    Map::empty()
}

/// `Ini::new`: a document without named sections (it holds only an empty
/// general section).
#[verifier::external_body]
fn ini_new() -> (res: Ini)
    ensures
        ini_sections(res) == no_sections(),
        ini_layout(res) == Seq::<(Seq<char>, Seq<Seq<char>>)>::empty(),
{
    Ini::new()
}

/// The keys of the first section called `name`, or none when there is none.
pub open spec fn section_or_empty(sections: Map<Seq<char>, Map<Seq<char>, Seq<char>>>, name: Seq<char>) -> Map<
    Seq<char>,
    Seq<char>,
> {
    if sections.contains_key(name) {
        sections[name]
    } else {
        Map::empty()
    }
}

/// `Ini::with_section(Some(section)).set(key, value)`: in the first section
/// called `section` (added after the others when there is none), `key` then
/// has `value` as its only value, which comes after the section's other values.
#[verifier::external_body]
fn ini_set(doc: &mut Ini, section: &str, key: &str, value: &str)
    ensures
        ini_sections(*final(doc)) == ini_sections(*old(doc)).insert(
            section@,
            section_or_empty(ini_sections(*old(doc)), section@).insert(key@, value@),
        ),
        ini_layout(*final(doc)) == layout_set(ini_layout(*old(doc)), section@, key@),
{
    doc.with_section(Some(section)).set(key, value);
}

/// `u8::to_string`: the decimal text of the number.
#[verifier::external_body]
fn u8_text(v: u8) -> (res: String)
    ensures
        res@ == decimal_text(v as nat),
{
    v.to_string()
}

/// The decimal text of `n`, as `format!("{}", n)` writes it.
pub open spec fn decimal_text(n: nat) -> Seq<char>
    decreases n,
{
    let digit = (('0' as nat) + n % 10) as char;
    if n < 10 {
        seq![digit]
    } else {
        decimal_text(n / 10).push(digit)
    }
}

/// The name of the section of fan `fan`: "Fan" and the number.
pub open spec fn fan_section_name(fan: nat) -> Seq<char> {
    "Fan"@ + decimal_text(fan)
}

/// `usize::to_string`: the decimal text of the number.
#[verifier::external_body]
fn usize_text(v: usize) -> (res: String)
    ensures
        res@ == decimal_text(v as nat),
{
    v.to_string()
}

/// How the fan speed follows the temperature between the low and the high
/// temperature of a fan.
#[derive(Clone, Copy, Debug, PartialEq, Eq, Structural)]
pub enum SpeedCurve {
    Linear,
    Exponential,
    Logarithmic,
}

/// The name of a curve, as the configuration file writes it.
pub open spec fn speed_curve_name(curve: SpeedCurve) -> Seq<char> {
    match curve {
        SpeedCurve::Linear => "linear"@,
        SpeedCurve::Exponential => "exponential"@,
        SpeedCurve::Logarithmic => "logarithmic"@,
    }
}

/// The curve a name stands for, if any.
pub open spec fn speed_curve_named(name: Seq<char>) -> Option<SpeedCurve> {
    if name == "linear"@ {
        Some(SpeedCurve::Linear)
    } else if name == "exponential"@ {
        Some(SpeedCurve::Exponential)
    } else if name == "logarithmic"@ {
        Some(SpeedCurve::Logarithmic)
    } else {
        None
    }
}

impl SpeedCurve {
    /// The curve's name, as the configuration file writes it.
    pub fn name(&self) -> (res: &'static str)
        ensures
            res@ == speed_curve_name(*self),
    {
        match self {
            SpeedCurve::Linear => "linear",
            SpeedCurve::Exponential => "exponential",
            SpeedCurve::Logarithmic => "logarithmic",
        }
    }

    /// The curve that the configuration file names: exactly "linear",
    /// "exponential" or "logarithmic".
    pub fn parse(s: &str) -> (res: Result<SpeedCurve, ()>)
        ensures
            res == (match speed_curve_named(s@) {
                Some(c) => Ok::<SpeedCurve, ()>(c),
                None => Err(()),
            }),
    {
        if same_text(s, "linear") {
            Ok(SpeedCurve::Linear)
        } else if same_text(s, "exponential") {
            Ok(SpeedCurve::Exponential)
        } else if same_text(s, "logarithmic") {
            Ok(SpeedCurve::Logarithmic)
        } else {
            Err(())
        }
    }
}

impl std::str::FromStr for SpeedCurve {
    type Err = ();

    /// The curve that the configuration file names, as `SpeedCurve::parse` reads it.
    fn from_str(s: &str) -> (res: Result<Self, Self::Err>)
        ensures
            res == (match speed_curve_named(s@) {
                Some(c) => Ok::<SpeedCurve, ()>(c),
                None => Err(()),
            }),
    {
        SpeedCurve::parse(s)
    }
}

/// A curve's name reads back as the same curve.
pub proof fn lemma_speed_curve_name_round_trip(curve: SpeedCurve)
    ensures
        speed_curve_named(speed_curve_name(curve)) == Some(curve),
{
    reveal_strlit("linear");
    reveal_strlit("exponential");
    reveal_strlit("logarithmic");
    assert("linear"@.len() == 6);
    assert("exponential"@.len() == 11);
    assert("logarithmic"@.len() == 11);
    assert("exponential"@[0] != "logarithmic"@[0]);
}

/// The integer part of a fan's configuration. The two floating-point
/// factors of a fan (`speed_tolerance_percent` and `settling_time_factor`)
/// are kept by the daemon beside it.
#[derive(Clone, Copy, Debug, PartialEq, Eq, Structural)]
pub struct FanConfig {
    pub low_temp: u8,
    pub high_temp: u8,
    pub speed_curve: SpeedCurve,
    pub always_full_speed: bool,
}

/// The message of the error for a configuration whose low temperature is not
/// below its high temperature.
pub const TEMP_RANGE_MESSAGE: &'static str = "low_temp must be less than high_temp";

impl FanConfig {
    /// The configuration unchanged if its low temperature is below its high
    /// temperature, else the `InvalidRange` error.
    pub fn validated(self) -> (res: Result<Self, ConfigError>)
        ensures
            self.low_temp < self.high_temp ==> res == Ok::<FanConfig, ConfigError>(self),
            self.low_temp >= self.high_temp ==> res == Err::<FanConfig, ConfigError>(
                ConfigError::InvalidRange(TEMP_RANGE_MESSAGE),
            ),
    {
        if self.low_temp >= self.high_temp {
            return Err(ConfigError::InvalidRange(TEMP_RANGE_MESSAGE));
        }
        Ok(self)
    }
}

impl Default for FanConfig {
    /// 55 °C to 75 °C, linear, not always at full speed.
    fn default() -> (res: Self)
        ensures
            res == (FanConfig {
                low_temp: 55,
                high_temp: 75,
                speed_curve: SpeedCurve::Linear,
                always_full_speed: false,
            }),
    {
        FanConfig {
            low_temp: 55,
            high_temp: 75,
            speed_curve: SpeedCurve::Linear,
            always_full_speed: false,
        }
    }
}

/// The text `bool::to_string` gives.
pub open spec fn bool_text(b: bool) -> Seq<char> {
    if b {
        "true"@
    } else {
        "false"@
    }
}

/// The keys of a section after the integer part of `config` is written into
/// it, in the order `FanConfig::write_property` writes them.
pub open spec fn with_config(props: Map<Seq<char>, Seq<char>>, config: FanConfig) -> Map<Seq<char>, Seq<char>> {
    props.insert("low_temp"@, decimal_text(config.low_temp as nat)).insert(
        "high_temp"@,
        decimal_text(config.high_temp as nat),
    ).insert("speed_curve"@, speed_curve_name(config.speed_curve)).insert(
        "always_full_speed"@,
        bool_text(config.always_full_speed),
    )
}

/// The layout after the integer part of a configuration is written into
/// `section`: `low_temp`, `high_temp`, `speed_curve`, `always_full_speed`.
pub open spec fn config_layout(layout: Seq<(Seq<char>, Seq<Seq<char>>)>, section: Seq<char>) -> Seq<
    (Seq<char>, Seq<Seq<char>>),
> {
    layout_set(
        layout_set(layout_set(layout_set(layout, section, "low_temp"@), section, "high_temp"@), section, "speed_curve"@),
        section,
        "always_full_speed"@,
    )
}

impl FanConfig {
    /// Writes the integer part of the configuration into the section called
    /// `section` of `file`: `low_temp`, `high_temp`, `speed_curve` and
    /// `always_full_speed`, in that order.
    pub fn write_property(self, file: &mut FanConfigFile, section: &str)
        ensures
            final(file).sections() == old(file).sections().insert(
                section@,
                with_config(section_or_empty(old(file).sections(), section@), self),
            ),
            final(file).layout() == config_layout(old(file).layout(), section@),
    {
        let ghost before = file.sections();
        file.set(section, "low_temp", u8_text(self.low_temp).as_str());
        file.set(section, "high_temp", u8_text(self.high_temp).as_str());
        file.set(section, "speed_curve", self.speed_curve.name());
        file.set(section, "always_full_speed", if self.always_full_speed { "true" } else { "false" });
        proof {
            reveal_strlit("true");
            reveal_strlit("false");
            assert(file.sections() =~= before.insert(
                section@,
                with_config(section_or_empty(before, section@), self),
            ));
        }
    }
}

/// What a fan's section holds, as read by this library: the integer part of
/// the configuration, the text of `speed_tolerance_percent`, and the text of
/// `settling_time_factor` if the section has that key.
#[derive(Debug, Clone)]
pub struct FanSection {
    pub config: FanConfig,
    pub speed_tolerance_percent: String,
    pub settling_time_factor: Option<String>,
}

/// The outcome of reading a section whose keys hold `m`, in the order the
/// keys are read: each of `low_temp`, `high_temp`, `speed_curve` and
/// `always_full_speed` must be there (else `MissingValue`) and parse (else
/// `InvalidValue`); then `speed_tolerance_percent` must be there.
pub open spec fn section_outcome(m: Map<Seq<char>, Seq<char>>) -> Result<
    (FanConfig, Seq<char>, Option<Seq<char>>),
    ConfigError,
> {
    if !m.contains_key("low_temp"@) {
        Err(ConfigError::MissingValue("low_temp"))
    } else if parsed_unsigned(m["low_temp"@], 255) is None {
        Err(ConfigError::InvalidValue("low_temp"))
    } else if !m.contains_key("high_temp"@) {
        Err(ConfigError::MissingValue("high_temp"))
    } else if parsed_unsigned(m["high_temp"@], 255) is None {
        Err(ConfigError::InvalidValue("high_temp"))
    } else if !m.contains_key("speed_curve"@) {
        Err(ConfigError::MissingValue("speed_curve"))
    } else if speed_curve_named(m["speed_curve"@]) is None {
        Err(ConfigError::InvalidValue("speed_curve"))
    } else if !m.contains_key("always_full_speed"@) {
        Err(ConfigError::MissingValue("always_full_speed"))
    } else if parsed_bool(m["always_full_speed"@]) is None {
        Err(ConfigError::InvalidValue("always_full_speed"))
    } else if !m.contains_key("speed_tolerance_percent"@) {
        Err(ConfigError::MissingValue("speed_tolerance_percent"))
    } else {
        Ok(
            (
                FanConfig {
                    low_temp: parsed_unsigned(m["low_temp"@], 255)->0 as u8,
                    high_temp: parsed_unsigned(m["high_temp"@], 255)->0 as u8,
                    speed_curve: speed_curve_named(m["speed_curve"@])->0,
                    always_full_speed: parsed_bool(m["always_full_speed"@])->0,
                },
                m["speed_tolerance_percent"@],
                if m.contains_key("settling_time_factor"@) {
                    Some(m["settling_time_factor"@])
                } else {
                    None
                },
            ),
        )
    }
}

/// A section read, seen through the views of its texts.
pub open spec fn section_view(res: Result<FanSection, ConfigError>) -> Result<
    (FanConfig, Seq<char>, Option<Seq<char>>),
    ConfigError,
> {
    match res {
        Ok(s) => Ok(
            (
                s.config,
                s.speed_tolerance_percent@,
                match s.settling_time_factor {
                    Some(t) => Some(t@),
                    None => None,
                },
            ),
        ),
        Err(e) => Err(e),
    }
}

/// The first value of `key`, or the `MissingValue` error for it.
fn required_value<'a>(props: &'a Properties, key: &'static str) -> (res: Result<&'a str, ConfigError>)
    ensures
        property_values(*props).contains_key(key@) ==> (res matches Ok(v) && v@
            == property_values(*props)[key@]),
        !property_values(*props).contains_key(key@) ==> res == Err::<&str, ConfigError>(
            ConfigError::MissingValue(key),
        ),
{
    match property(props, key) {
        Some(v) => Ok(v),
        None => Err(ConfigError::MissingValue(key)),
    }
}

impl FanSection {
    /// Reads a fan's section, key by key, as `section_outcome` describes.
    pub fn read(props: &Properties) -> (res: Result<FanSection, ConfigError>)
        ensures
            section_view(res) == section_outcome(property_values(*props)),
    {
        let low_temp = match parse_u8(required_value(props, "low_temp")?) {
            Some(v) => v,
            None => return Err(ConfigError::InvalidValue("low_temp")),
        };
        let high_temp = match parse_u8(required_value(props, "high_temp")?) {
            Some(v) => v,
            None => return Err(ConfigError::InvalidValue("high_temp")),
        };
        let speed_curve = match SpeedCurve::parse(required_value(props, "speed_curve")?) {
            Ok(v) => v,
            Err(()) => return Err(ConfigError::InvalidValue("speed_curve")),
        };
        let always_full_speed = match parse_bool(required_value(props, "always_full_speed")?) {
            Some(v) => v,
            None => return Err(ConfigError::InvalidValue("always_full_speed")),
        };
        let tolerance = required_value(props, "speed_tolerance_percent")?;
        let settling = match property(props, "settling_time_factor") {
            Some(t) => Some(String::from_str(t)),
            None => None,
        };
        Ok(FanSection {
            config: FanConfig { low_temp, high_temp, speed_curve, always_full_speed },
            speed_tolerance_percent: String::from_str(tolerance),
            settling_time_factor: settling,
        })
    }
}

/// A loaded configuration file.
pub struct FanConfigFile {
    doc: Ini,
}

impl FanConfigFile {
    /// The order of the file's named sections and of their keys, as it
    /// would be written.
    pub closed spec fn layout(&self) -> Seq<(Seq<char>, Seq<Seq<char>>)> {
        ini_layout(self.doc)
    }

    /// The file's named sections.
    pub closed spec fn sections(&self) -> Map<Seq<char>, Map<Seq<char>, Seq<char>>> {
        ini_sections(self.doc)
    }

    /// Loads the text of a configuration file; a text that is not INI gives
    /// the `Parse` error.
    pub fn parse(text: &str) -> (res: Result<FanConfigFile, ConfigError>)
        ensures
            res is Ok <==> parsed_ini(text@) is Some,
            res matches Ok(file) ==> parsed_ini(text@) == Some(file.sections()),
            res matches Err(e) ==> e is Parse,
    {
        match load_ini(text) {
            Ok(doc) => Ok(FanConfigFile { doc }),
            Err(e) => Err(ConfigError::Parse(e)),
        }
    }

    /// A file without sections.
    pub fn new() -> (res: FanConfigFile)
        ensures
            res.sections() == no_sections(),
            res.layout() == Seq::<(Seq<char>, Seq<Seq<char>>)>::empty(),
    {
        FanConfigFile { doc: ini_new() }
    }

    /// Sets `key` to `value` in the first section called `section` (adding
    /// the section after the others when there is none).
    pub fn set(&mut self, section: &str, key: &str, value: &str)
        ensures
            final(self).sections() == old(self).sections().insert(
                section@,
                section_or_empty(old(self).sections(), section@).insert(key@, value@),
            ),
            final(self).layout() == layout_set(old(self).layout(), section@, key@),
    {
        ini_set(&mut self.doc, section, key, value);
    }

    /// The INI document, for writing it out.
    pub fn document(&self) -> (res: &Ini)
        ensures
            ini_sections(*res) == self.sections(),
            ini_layout(*res) == self.layout(),
    {
        &self.doc
    }

    /// The title of fan `fan`'s section: "Fan" and the number.
    pub fn section_title(fan: usize) -> (res: String)
        ensures
            res@ == fan_section_name(fan as nat),
    {
        let mut title = String::from_str("Fan");
        title.append(usize_text(fan).as_str());
        title
    }

    /// Reads the section of fan `fan`: `MissingFan(fan)` if the file has no
    /// section `[Fan<fan>]`, else as `FanSection::read` reads it.
    pub fn fan_section(&self, fan: usize) -> (res: Result<FanSection, ConfigError>)
        ensures
            !self.sections().contains_key(fan_section_name(fan as nat)) ==> res
                == Err::<FanSection, ConfigError>(ConfigError::MissingFan(fan)),
            self.sections().contains_key(fan_section_name(fan as nat)) ==> section_view(res)
                == section_outcome(self.sections()[fan_section_name(fan as nat)]),
    {
        let name = FanConfigFile::section_title(fan);
        match ini_section(&self.doc, name.as_str()) {
            Some(props) => FanSection::read(props),
            None => Err(ConfigError::MissingFan(fan)),
        }
    }
}

proof fn lemma_decimal_text_digits(n: nat)
    ensures
        decimal_text(n).len() > 0,
        forall|i: int| 0 <= i < decimal_text(n).len() ==> is_decimal_digit(#[trigger] decimal_text(n)[i]),
        digits_value(decimal_text(n)) == n,
    decreases n,
{
    let d = n % 10;
    let digit = (('0' as nat) + d) as char;
    assert(digit as nat == '0' as nat + d);
    if n < 10 {
        let t = decimal_text(n);
        assert(t.drop_last() =~= Seq::<char>::empty());
        assert(digits_value(t) == digits_value(t.drop_last()) * 10 + (t.last() as nat - '0' as nat) as nat);
    } else {
        lemma_decimal_text_digits(n / 10);
        let t = decimal_text(n);
        assert(t.drop_last() =~= decimal_text(n / 10));
        assert(t.last() == digit);
        assert(n == (n / 10) * 10 + d);
    }
}

/// A number's decimal text reads back as the number.
pub proof fn lemma_decimal_reads_back(n: nat, max: nat)
    requires
        n <= max,
    ensures
        parsed_unsigned(decimal_text(n), max) == Some(n),
{
    lemma_decimal_text_digits(n);
    let t = decimal_text(n);
    assert(t[0] != '+');
}

/// A flag's text reads back as the flag.
pub proof fn lemma_bool_reads_back(b: bool)
    ensures
        parsed_bool(bool_text(b)) == Some(b),
{
    reveal_strlit("true");
    reveal_strlit("false");
    assert("true"@.len() != "false"@.len());
}

/// A configuration written into a section, followed by the texts of its two
/// factors, reads back as the same configuration and the same texts: the
/// configuration file the daemon writes is the one it reads.
pub proof fn lemma_written_config_reads_back(
    props: Map<Seq<char>, Seq<char>>,
    config: FanConfig,
    tolerance: Seq<char>,
    settling: Seq<char>,
)
    ensures
        section_outcome(
            with_config(props, config).insert("speed_tolerance_percent"@, tolerance).insert(
                "settling_time_factor"@,
                settling,
            ),
        ) == Ok::<(FanConfig, Seq<char>, Option<Seq<char>>), ConfigError>((config, tolerance, Some(settling))),
{
    reveal_strlit("low_temp");
    reveal_strlit("high_temp");
    reveal_strlit("speed_curve");
    reveal_strlit("always_full_speed");
    reveal_strlit("speed_tolerance_percent");
    reveal_strlit("settling_time_factor");
    assert("low_temp"@.len() == 8);
    assert("high_temp"@.len() == 9);
    assert("speed_curve"@.len() == 11);
    assert("always_full_speed"@.len() == 17);
    assert("settling_time_factor"@.len() == 20);
    assert("speed_tolerance_percent"@.len() == 23);
    lemma_decimal_reads_back(config.low_temp as nat, 255);
    lemma_decimal_reads_back(config.high_temp as nat, 255);
    lemma_speed_curve_name_round_trip(config.speed_curve);
    lemma_bool_reads_back(config.always_full_speed);
    let m = with_config(props, config).insert("speed_tolerance_percent"@, tolerance).insert(
        "settling_time_factor"@,
        settling,
    );
    assert(m["low_temp"@] == decimal_text(config.low_temp as nat));
    assert(m["high_temp"@] == decimal_text(config.high_temp as nat));
    assert(m["speed_curve"@] == speed_curve_name(config.speed_curve));
    assert(m["always_full_speed"@] == bool_text(config.always_full_speed));
}

proof fn lemma_first_position_pushed(
    layout: Seq<(Seq<char>, Seq<Seq<char>>)>,
    section: Seq<char>,
    keys: Seq<Seq<char>>,
)
    requires
        first_position(layout, section) is None,
    ensures
        first_position(layout.push((section, keys)), section) == Some(layout.len()),
    decreases layout.len(),
{
    let pushed = layout.push((section, keys));
    if layout.len() > 0 {
        assert(pushed.drop_first() =~= layout.drop_first().push((section, keys)));
        lemma_first_position_pushed(layout.drop_first(), section, keys);
    }
}

proof fn lemma_without_absent_key(keys: Seq<Seq<char>>, key: Seq<char>)
    requires
        forall|i: int| 0 <= i < keys.len() ==> keys[i] != key,
    ensures
        without_key(keys, key) == keys,
    decreases keys.len(),
{
    if keys.len() > 0 {
        lemma_without_absent_key(keys.drop_first(), key);
        assert(seq![keys[0]] + keys.drop_first() =~= keys);
    }
}

proof fn lemma_set_in_last_section(
    layout: Seq<(Seq<char>, Seq<Seq<char>>)>,
    section: Seq<char>,
    keys: Seq<Seq<char>>,
    key: Seq<char>,
)
    requires
        first_position(layout, section) is None,
        forall|i: int| 0 <= i < keys.len() ==> keys[i] != key,
    ensures
        layout_set(layout.push((section, keys)), section, key) == layout.push((section, keys.push(key))),
{
    lemma_first_position_pushed(layout, section, keys);
    lemma_without_absent_key(keys, key);
    assert(layout.push((section, keys)).update(layout.len() as int, (section, keys.push(key)))
        =~= layout.push((section, keys.push(key))));
}

/// The keys of a fan's section, in the order they are written.
pub open spec fn fan_section_keys() -> Seq<Seq<char>> {
    seq![
        "low_temp"@,
        "high_temp"@,
        "speed_curve"@,
        "always_full_speed"@,
        "speed_tolerance_percent"@,
        "settling_time_factor"@,
    ]
}

/// A fan's section written into a file that does not hold it yet (the
/// integer part of a configuration, then the tolerance and the settling
/// factor) comes after the file's other sections, with its keys in the order
/// `fan_section_keys` gives.
pub proof fn lemma_new_section_layout(layout: Seq<(Seq<char>, Seq<Seq<char>>)>, section: Seq<char>)
    requires
        first_position(layout, section) is None,
    ensures
        layout_set(
            layout_set(config_layout(layout, section), section, "speed_tolerance_percent"@),
            section,
            "settling_time_factor"@,
        ) == layout.push((section, fan_section_keys())),
{
    reveal_strlit("low_temp");
    reveal_strlit("high_temp");
    reveal_strlit("speed_curve");
    reveal_strlit("always_full_speed");
    reveal_strlit("speed_tolerance_percent");
    reveal_strlit("settling_time_factor");
    assert("low_temp"@.len() == 8);
    assert("high_temp"@.len() == 9);
    assert("speed_curve"@.len() == 11);
    assert("always_full_speed"@.len() == 17);
    assert("settling_time_factor"@.len() == 20);
    assert("speed_tolerance_percent"@.len() == 23);
    let k = fan_section_keys();
    let l1 = layout.push((section, seq![k[0]]));
    assert(layout_set(layout, section, k[0]) == l1);
    lemma_set_in_last_section(layout, section, k.take(1), k[1]);
    assert(k.take(1) =~= seq![k[0]]);
    assert(k.take(1).push(k[1]) =~= k.take(2));
    lemma_set_in_last_section(layout, section, k.take(2), k[2]);
    assert(k.take(2).push(k[2]) =~= k.take(3));
    lemma_set_in_last_section(layout, section, k.take(3), k[3]);
    assert(k.take(3).push(k[3]) =~= k.take(4));
    lemma_set_in_last_section(layout, section, k.take(4), k[4]);
    assert(k.take(4).push(k[4]) =~= k.take(5));
    lemma_set_in_last_section(layout, section, k.take(5), k[5]);
    assert(k.take(5).push(k[5]) =~= k);
}

/// Different fans have differently named sections.
pub proof fn lemma_section_names_distinct(a: nat, b: nat)
    requires
        a != b,
    ensures
        fan_section_name(a) != fan_section_name(b),
{
    lemma_decimal_text_digits(a);
    lemma_decimal_text_digits(b);
    reveal_strlit("Fan");
    if fan_section_name(a) == fan_section_name(b) {
        assert(fan_section_name(a).subrange(3, fan_section_name(a).len() as int) =~= decimal_text(a));
        assert(fan_section_name(b).subrange(3, fan_section_name(b).len() as int) =~= decimal_text(b));
    }
}

} // verus!
