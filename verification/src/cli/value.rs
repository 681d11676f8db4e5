pub mod argon2id_params;
pub mod chunk_type;
pub mod compression_level;
pub mod datetime;
pub mod missing_time_policy;
pub mod name_id_pair;
pub mod options;
pub mod params;
pub mod pbkdf2_sha256_params;
