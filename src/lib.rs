//! Command-line configuration for a stream-link tool: the target date, the
//! CDN selector, the optional output files, and the output mode derived from them.
mod cdn;
mod date;
mod error;
mod opt;

pub use cdn::{cdn_of, cdn_token, lemma_cdn_round_trip, Cdn};
pub use date::{
    all_digits, date_shape, date_token, date_value, day_of, days_in_month, digits_value,
    is_digit, is_leap_year, is_ymd_digits, lemma_date_shapes_accepted, month_of, parse_date,
    shape_digits, strip_hyphens, valid_date, year_of, Date,
};
pub use error::OptError;
pub use opt::{
    channel_digits, channel_token, channel_value, config_error, config_value,
    lemma_omitted_fields_default, parse_channel, resolve_mode, wants_files, Opt, OutputType,
    DEFAULT_XMLTV_START_CHANNEL,
};
