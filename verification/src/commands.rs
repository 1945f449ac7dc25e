//! Data types associated with supported commands

pub mod get_analog_value;
pub mod get_system_parameter;

pub use get_analog_value::AnalogValueParseError;
pub use get_analog_value::AnalogValueResponse;
pub use get_analog_value::PackData;
pub use get_system_parameter::SystemParameter;
