//! Classical XOR cryptanalysis: recovering single-byte and repeating-key XOR
//! keys from ciphertext by letter-frequency scoring and normalized Hamming
//! distance, plus the small byte-level utilities the attacks are built from.

pub mod codec;
pub mod distance;
pub mod ecb;
pub mod freq;
pub mod keysize;
pub mod repeating;
pub mod single_byte;
pub mod util;

pub use codec::b64_to_bytes;
pub use codec::bytes_to_b64;
pub use codec::bytes_to_hex;
pub use codec::bytes_to_plaintext;
pub use codec::hex_to_bytes;
pub use ecb::decrypt_aes_ecb_128;
pub use ecb::detect_aes_ecb;
pub use ecb::pkcs7_padding;
pub use ecb::AesError;
pub use distance::edit_distance;
pub use distance::fixed_xor;
pub use freq::count_freq_score;
pub use keysize::guess_keysize;
pub use repeating::break_repeating_key_xor;
pub use repeating::repeat_key;
pub use repeating::transpose_blocks;
pub use repeating::XorError;
pub use single_byte::break_single_char_xor;
