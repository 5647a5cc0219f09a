pub mod column_chunk;
pub mod column_reader;
pub mod column_writer;
pub mod lz4;
pub mod string_column;
pub mod table_writer;
pub mod zone_map;
pub mod zone_map_format;
