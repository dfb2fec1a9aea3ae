//! Thresholds and gains, fixed for one run, and how they are read from a
//! configuration document.

use crate::document::{
    array_items, parse_table, parsed_items, table_get, table_items, value_as_array,
    value_as_float_bits, value_as_integer, Item,
};
use crate::fixed::{
    double_in_unit_range, double_is_fraction, double_micro, double_to_micro,
    lemma_fraction_in_range,
};
use vstd::prelude::*;

verus! {

/// The fixed-point representation of one: gains, the speed and commanded
/// angles count millionths.
pub const MICRO: i64 = 1_000_000;

/// Models the colour thresholds for object detection and the gains of the
/// steering filter.
///
/// The thresholds are bounds on hue, saturation and value, kept for the
/// classifier that makes the masks. `p_gain`, `i_gain` and `speed` are
/// fractions in millionths; `i_max` is the bound of the filter's integral in
/// millionths of a degree.
pub struct DrivableConfig {
    pub left_lower: Vec<u8>,
    pub left_upper: Vec<u8>,
    pub right_lower: Vec<u8>,
    pub right_upper: Vec<u8>,
    pub box_lower: Vec<u8>,
    pub box_upper: Vec<u8>,
    pub car_lower: Vec<u8>,
    pub car_upper: Vec<u8>,
    pub finish_lower: Vec<u8>,
    pub finish_upper: Vec<u8>,
    pub p_gain: i64,
    pub i_gain: i64,
    pub i_max: i64,
    pub speed: i64,
}

/// The mathematical content of a [`DrivableConfig`].
pub struct ConfigView {
    pub left_lower: Seq<u8>,
    pub left_upper: Seq<u8>,
    pub right_lower: Seq<u8>,
    pub right_upper: Seq<u8>,
    pub box_lower: Seq<u8>,
    pub box_upper: Seq<u8>,
    pub car_lower: Seq<u8>,
    pub car_upper: Seq<u8>,
    pub finish_lower: Seq<u8>,
    pub finish_upper: Seq<u8>,
    pub p_gain: i64,
    pub i_gain: i64,
    pub i_max: i64,
    pub speed: i64,
}

impl View for DrivableConfig {
    type V = ConfigView;

    open spec fn view(&self) -> ConfigView {
        ConfigView {
            left_lower: self.left_lower@,
            left_upper: self.left_upper@,
            right_lower: self.right_lower@,
            right_upper: self.right_upper@,
            box_lower: self.box_lower@,
            box_upper: self.box_upper@,
            car_lower: self.car_lower@,
            car_upper: self.car_upper@,
            finish_lower: self.finish_lower@,
            finish_upper: self.finish_upper@,
            p_gain: self.p_gain,
            i_gain: self.i_gain,
            i_max: self.i_max,
            speed: self.speed,
        }
    }
}

/// Whether `value` is a fraction between zero and one, in millionths.
pub open spec fn is_fraction(value: int) -> bool {
    0 <= value <= MICRO
}

/// The entries of a configuration document, in the order in which they are
/// read.
#[derive(Clone, Copy, Debug, PartialEq, Eq, Structural)]
pub enum ConfigKey {
    LeftLower,
    LeftUpper,
    RightLower,
    RightUpper,
    BoxLower,
    BoxUpper,
    CarLower,
    CarUpper,
    FinishLower,
    FinishUpper,
    PGain,
    IGain,
    IMax,
    Speed,
}

/// Why a text is no configuration.
#[derive(Clone, Copy, Debug, PartialEq, Eq, Structural)]
pub enum ConfigError {
    /// The text is no TOML document.
    Syntax,
    /// The document has no entry of this name.
    Missing(ConfigKey),
    /// The entry is a threshold and holds no array.
    NotArray(ConfigKey),
    /// The entry is a threshold and a member of its array is no integer.
    NotInteger(ConfigKey),
    /// The entry is a number and holds no float.
    NotFloat(ConfigKey),
    /// The entry is a number outside the range that it may take.
    OutOfRange(ConfigKey),
}

impl ConfigKey {
    /// The entry's name in the document.
    pub open spec fn spec_name(self) -> Seq<char> {
        match self {
            ConfigKey::LeftLower => "left_lower"@,
            ConfigKey::LeftUpper => "left_upper"@,
            ConfigKey::RightLower => "right_lower"@,
            ConfigKey::RightUpper => "right_upper"@,
            ConfigKey::BoxLower => "box_lower"@,
            ConfigKey::BoxUpper => "box_upper"@,
            ConfigKey::CarLower => "car_lower"@,
            ConfigKey::CarUpper => "car_upper"@,
            ConfigKey::FinishLower => "finish_lower"@,
            ConfigKey::FinishUpper => "finish_upper"@,
            ConfigKey::PGain => "p_gain"@,
            ConfigKey::IGain => "i_gain"@,
            ConfigKey::IMax => "i_max"@,
            ConfigKey::Speed => "speed"@,
        }
    }

    /// The entry's name in the document.
    pub fn name(self) -> (name: &'static str)
        ensures
            name@ == self.spec_name(),
    {
        match self {
            ConfigKey::LeftLower => "left_lower",
            ConfigKey::LeftUpper => "left_upper",
            ConfigKey::RightLower => "right_lower",
            ConfigKey::RightUpper => "right_upper",
            ConfigKey::BoxLower => "box_lower",
            ConfigKey::BoxUpper => "box_upper",
            ConfigKey::CarLower => "car_lower",
            ConfigKey::CarUpper => "car_upper",
            ConfigKey::FinishLower => "finish_lower",
            ConfigKey::FinishUpper => "finish_upper",
            ConfigKey::PGain => "p_gain",
            ConfigKey::IGain => "i_gain",
            ConfigKey::IMax => "i_max",
            ConfigKey::Speed => "speed",
        }
    }

    /// Whether the entry must be a fraction between zero and one.
    pub open spec fn is_fraction_key(self) -> bool {
        self == ConfigKey::PGain || self == ConfigKey::IGain || self == ConfigKey::Speed
    }
}

/// The lowest eight bits of an integer.
pub open spec fn low_byte_of(integer: i64) -> u8 {
    (integer as int % 256) as u8
}

/// The lowest eight bits of an integer.
pub fn low_byte(integer: i64) -> (byte: u8)
    ensures
        byte == low_byte_of(integer),
{
    (((integer % 256) + 256) % 256) as u8
}

/// The lowest eight bits of each member, if all members are integers.
pub open spec fn bytes_of(members: Seq<Item>) -> Option<Seq<u8>> {
    if forall|i: int| 0 <= i < members.len() ==> #[trigger] members[i] is Integer {
        Some(Seq::new(members.len(), |i: int| low_byte_of(members[i]->Integer_0)))
    } else {
        None
    }
}

/// The threshold stored under `key`: the members of its array, each cut down
/// to its lowest eight bits.
pub open spec fn threshold_of(items: Map<Seq<char>, Item>, key: ConfigKey) -> Result<
    Seq<u8>,
    ConfigError,
> {
    if !items.contains_key(key.spec_name()) {
        Err(ConfigError::Missing(key))
    } else {
        match items[key.spec_name()] {
            Item::Array(members) => match bytes_of(members) {
                Some(bytes) => Ok(bytes),
                None => Err(ConfigError::NotInteger(key)),
            },
            _ => Err(ConfigError::NotArray(key)),
        }
    }
}

/// The number that a float with these bits gives for `key`, in millionths:
/// a gain or the speed must lie between zero and one, the integral's bound
/// must not be negative and must fit 64 bits.
pub open spec fn number_from_bits(bits: u64, key: ConfigKey) -> Result<i64, ConfigError> {
    if key.is_fraction_key() {
        if double_is_fraction(bits) {
            Ok(double_micro(bits)->Some_0)
        } else {
            Err(ConfigError::OutOfRange(key))
        }
    } else {
        match double_micro(bits) {
            Some(micro) => if micro >= 0 {
                Ok(micro)
            } else {
                Err(ConfigError::OutOfRange(key))
            },
            None => Err(ConfigError::OutOfRange(key)),
        }
    }
}

/// The number stored under `key`, in millionths.
pub open spec fn number_of(items: Map<Seq<char>, Item>, key: ConfigKey) -> Result<
    i64,
    ConfigError,
> {
    if !items.contains_key(key.spec_name()) {
        Err(ConfigError::Missing(key))
    } else {
        match items[key.spec_name()] {
            Item::Float(bits) => number_from_bits(bits, key),
            _ => Err(ConfigError::NotFloat(key)),
        }
    }
}

/// What is wrong with the entry `key`, if anything.
pub open spec fn key_error(items: Map<Seq<char>, Item>, key: ConfigKey) -> Option<ConfigError> {
    match key {
        ConfigKey::PGain | ConfigKey::IGain | ConfigKey::IMax | ConfigKey::Speed => match number_of(
            items,
            key,
        ) {
            Ok(_) => None,
            Err(error) => Some(error),
        },
        _ => match threshold_of(items, key) {
            Ok(_) => None,
            Err(error) => Some(error),
        },
    }
}

/// The first of two errors.
pub open spec fn or_else(first: Option<ConfigError>, second: Option<ConfigError>) -> Option<
    ConfigError,
> {
    if first is Some {
        first
    } else {
        second
    }
}

/// What is wrong with the thresholds, if anything: the error of the first
/// entry that has one, the entries taken in the order left, right, box, car
/// and finish, lower before upper.
pub open spec fn thresholds_error(items: Map<Seq<char>, Item>) -> Option<ConfigError> {
    or_else(
        key_error(items, ConfigKey::LeftLower),
        or_else(
            key_error(items, ConfigKey::LeftUpper),
            or_else(
                key_error(items, ConfigKey::RightLower),
                or_else(
                    key_error(items, ConfigKey::RightUpper),
                    or_else(
                        key_error(items, ConfigKey::BoxLower),
                        or_else(
                            key_error(items, ConfigKey::BoxUpper),
                            or_else(
                                key_error(items, ConfigKey::CarLower),
                                or_else(
                                    key_error(items, ConfigKey::CarUpper),
                                    or_else(
                                        key_error(items, ConfigKey::FinishLower),
                                        key_error(items, ConfigKey::FinishUpper),
                                    ),
                                ),
                            ),
                        ),
                    ),
                ),
            ),
        ),
    )
}

/// What is wrong with the numbers, if anything: the error of the first entry
/// that has one, in the order proportional gain, integral gain, integral's
/// bound, speed.
pub open spec fn numbers_error(items: Map<Seq<char>, Item>) -> Option<ConfigError> {
    or_else(
        key_error(items, ConfigKey::PGain),
        or_else(
            key_error(items, ConfigKey::IGain),
            or_else(key_error(items, ConfigKey::IMax), key_error(items, ConfigKey::Speed)),
        ),
    )
}

/// The configuration that the items of a document give: every entry under
/// its own name, or the first error, thresholds before numbers.
pub open spec fn config_of(items: Map<Seq<char>, Item>) -> Result<ConfigView, ConfigError> {
    match or_else(thresholds_error(items), numbers_error(items)) {
        Some(error) => Err(error),
        None => Ok(
            ConfigView {
                left_lower: threshold_of(items, ConfigKey::LeftLower)->Ok_0,
                left_upper: threshold_of(items, ConfigKey::LeftUpper)->Ok_0,
                right_lower: threshold_of(items, ConfigKey::RightLower)->Ok_0,
                right_upper: threshold_of(items, ConfigKey::RightUpper)->Ok_0,
                box_lower: threshold_of(items, ConfigKey::BoxLower)->Ok_0,
                box_upper: threshold_of(items, ConfigKey::BoxUpper)->Ok_0,
                car_lower: threshold_of(items, ConfigKey::CarLower)->Ok_0,
                car_upper: threshold_of(items, ConfigKey::CarUpper)->Ok_0,
                finish_lower: threshold_of(items, ConfigKey::FinishLower)->Ok_0,
                finish_upper: threshold_of(items, ConfigKey::FinishUpper)->Ok_0,
                p_gain: number_of(items, ConfigKey::PGain)->Ok_0,
                i_gain: number_of(items, ConfigKey::IGain)->Ok_0,
                i_max: number_of(items, ConfigKey::IMax)->Ok_0,
                speed: number_of(items, ConfigKey::Speed)->Ok_0,
            },
        ),
    }
}

/// The configuration that a text gives when read as a TOML document.
pub open spec fn read_config(text: Seq<char>) -> Result<ConfigView, ConfigError> {
    match parsed_items(text) {
        Some(items) => config_of(items),
        None => Err(ConfigError::Syntax),
    }
}

/// The view of a configuration that was read, or the error.
pub open spec fn view_of(read: Result<DrivableConfig, ConfigError>) -> Result<
    ConfigView,
    ConfigError,
> {
    match read {
        Ok(config) => Ok(config@),
        Err(error) => Err(error),
    }
}

/// Turns the bits of a float into the number that they give for `key`, in
/// millionths.
pub fn number_for(bits: u64, key: ConfigKey) -> (number: Result<i64, ConfigError>)
    ensures
        number == number_from_bits(bits, key),
        number matches Ok(micro) ==> 0 <= micro && (key.is_fraction_key() ==> micro <= MICRO),
{
    let fraction: bool = match key {
        ConfigKey::PGain | ConfigKey::IGain | ConfigKey::Speed => true,
        _ => false,
    };
    if fraction && !double_in_unit_range(bits) {
        return Err(ConfigError::OutOfRange(key));
    }
    proof {
        if fraction {
            lemma_fraction_in_range(bits);
        }
    }
    match double_to_micro(bits) {
        Some(micro) => if micro >= 0 {
            Ok(micro)
        } else {
            Err(ConfigError::OutOfRange(key))
        },
        None => Err(ConfigError::OutOfRange(key)),
    }
}

/// Reads the threshold stored under `key`.
#[verifier::loop_isolation(false)]
fn read_threshold(table: &toml::Table, key: ConfigKey) -> (threshold: Result<Vec<u8>, ConfigError>)
    ensures
        match threshold {
            Ok(bytes) => threshold_of(table_items(*table), key) == Ok::<Seq<u8>, ConfigError>(
                bytes@,
            ),
            Err(error) => threshold_of(table_items(*table), key) == Err::<Seq<u8>, ConfigError>(
                error,
            ),
        },
{
    let value = match table_get(table, key.name()) {
        Some(value) => value,
        None => {
            return Err(ConfigError::Missing(key));
        },
    };
    let values = match value_as_array(value) {
        Some(values) => values,
        None => {
            return Err(ConfigError::NotArray(key));
        },
    };
    let ghost members = array_items(values@);
    let mut bytes: Vec<u8> = Vec::new();
    let mut i: usize = 0;
    while i < values.len()
        invariant
            i <= values.len(),
            members == array_items(values@),
            bytes.len() == i,
            forall|j: int| 0 <= j < i ==> #[trigger] members[j] is Integer,
            forall|j: int| 0 <= j < i ==> bytes[j] == low_byte_of(members[j]->Integer_0),
        decreases values.len() - i,
    {
        match value_as_integer(&values[i]) {
            Some(integer) => {
                bytes.push(low_byte(integer));
            },
            None => {
                assert(!(members[i as int] is Integer));
                return Err(ConfigError::NotInteger(key));
            },
        }
        i = i + 1;
    }
    assert(bytes@ =~= bytes_of(members)->Some_0);
    Ok(bytes)
}

/// Reads the number stored under `key`.
fn read_number(table: &toml::Table, key: ConfigKey) -> (number: Result<i64, ConfigError>)
    ensures
        number == number_of(table_items(*table), key),
        number matches Ok(micro) ==> 0 <= micro && (key.is_fraction_key() ==> micro <= MICRO),
{
    let value = match table_get(table, key.name()) {
        Some(value) => value,
        None => {
            return Err(ConfigError::Missing(key));
        },
    };
    match value_as_float_bits(value) {
        Some(bits) => number_for(bits, key),
        None => Err(ConfigError::NotFloat(key)),
    }
}

impl DrivableConfig {
    /// The gains and the speed are fractions between zero and one, and the
    /// integral's bound is not negative.
    pub open spec fn is_valid(&self) -> bool {
        &&& is_fraction(self.p_gain as int)
        &&& is_fraction(self.i_gain as int)
        &&& is_fraction(self.speed as int)
        &&& self.i_max >= 0
    }

    /// Says whether the configuration is valid.
    pub fn check(&self) -> (valid: bool)
        ensures
            valid == self.is_valid(),
    {
        0 <= self.p_gain && self.p_gain <= MICRO && 0 <= self.i_gain && self.i_gain <= MICRO && 0
            <= self.speed && self.speed <= MICRO && self.i_max >= 0
    }

    /// Reads a configuration from the text of a TOML document.
    ///
    /// The document must hold an array of integers under each of the ten
    /// threshold names and a float under each of `p_gain`, `i_gain`, `i_max`
    /// and `speed`. The first entry that is missing or wrong gives the
    /// error. A configuration that is read is valid.
    pub fn from_toml(text: &str) -> (read: Result<DrivableConfig, ConfigError>)
        ensures
            view_of(read) == read_config(text@),
            read matches Ok(config) ==> config.is_valid(),
    {
        match parse_table(text) {
            Ok(table) => DrivableConfig::from_table(&table),
            Err(_) => Err(ConfigError::Syntax),
        }
    }

    /// Reads a configuration from the top-level table of a TOML document:
    /// every entry under its own name, or the error of the first entry that
    /// is missing or wrong, thresholds before numbers. A configuration that
    /// is read is valid.
    pub fn from_table(table: &toml::Table) -> (read: Result<DrivableConfig, ConfigError>)
        ensures
            view_of(read) == config_of(table_items(*table)),
            read matches Ok(config) ==> config.is_valid(),
    {
        let left_lower = read_threshold(table, ConfigKey::LeftLower)?;
        let left_upper = read_threshold(table, ConfigKey::LeftUpper)?;
        let right_lower = read_threshold(table, ConfigKey::RightLower)?;
        let right_upper = read_threshold(table, ConfigKey::RightUpper)?;
        let box_lower = read_threshold(table, ConfigKey::BoxLower)?;
        let box_upper = read_threshold(table, ConfigKey::BoxUpper)?;
        let car_lower = read_threshold(table, ConfigKey::CarLower)?;
        let car_upper = read_threshold(table, ConfigKey::CarUpper)?;
        let finish_lower = read_threshold(table, ConfigKey::FinishLower)?;
        let finish_upper = read_threshold(table, ConfigKey::FinishUpper)?;
        let p_gain = read_number(table, ConfigKey::PGain)?;
        let i_gain = read_number(table, ConfigKey::IGain)?;
        let i_max = read_number(table, ConfigKey::IMax)?;
        let speed = read_number(table, ConfigKey::Speed)?;
        Ok(
            DrivableConfig {
                left_lower,
                left_upper,
                right_lower,
                right_upper,
                box_lower,
                box_upper,
                car_lower,
                car_upper,
                finish_lower,
                finish_upper,
                p_gain,
                i_gain,
                i_max,
                speed,
            },
        )
    }
}

} // verus!
