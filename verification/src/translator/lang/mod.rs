pub mod nil;
pub mod serbian;
