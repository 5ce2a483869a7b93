pub mod bytes;
pub mod error;
pub mod evkm10;
pub mod gnss_data;
pub mod text;

pub use error::DecodeError;
pub use evkm10::{FloatBits, M10GnssDataPoint, M10GnssDataSet};
pub use gnss_data::{
    GnssAvailableSatellites, GnssLatLongIndicator, GnssLatLongMeasurement,
    GnssNumericMeasurement, UtcDateTime,
};
