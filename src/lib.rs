//! Audio metadata with composite "number/total" fields.
//!
//! The crate models the two stores that an audio tagging engine exposes
//! (a block of fixed primitive fields and an open key/value property map)
//! and reconciles them for the compound fields: track number and total,
//! disc number and total. Compound values are kept in slash-separated
//! text ("03/12") whose halves are parsed and re-rendered by the pair codec.

pub mod code_page;
pub mod decimal;
pub mod file;
pub mod file_type;
pub mod pair;
pub mod properties;
pub mod text;

pub use code_page::{acp_encode, MAX_ENCODED_CHARS};
pub use decimal::{decimal_to_padding_string, parse_decimal};
pub use file::{
    AudioProperties, File, FileError, Tag, KEY_ALBUM_ARTIST, KEY_COMPOSER, KEY_COPYRIGHT,
    KEY_DATE, KEY_DISC_NUMBER, KEY_LYRICS, KEY_TRACK_NUMBER, KEY_TRACK_TOTAL,
};
pub use file_type::FileType;
pub use pair::{
    get_num, get_number_pair, get_text, get_text_pair, num_pair_to_string, text_pair_to_string,
    u32_to_option,
};
pub use properties::PropertyMap;
pub use text::trim;
