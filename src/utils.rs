pub mod checksum;
