pub mod public_key;
