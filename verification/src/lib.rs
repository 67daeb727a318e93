//! Operator registry, goods and pay oracles and the collector that gathers
//! their fresh readings.
pub mod collector;
pub mod goods_oracle;
pub mod hashing;
pub mod laws;
pub mod operator;
pub mod pay_oracle;
pub mod storage_map;
pub mod utilities;
