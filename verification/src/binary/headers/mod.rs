pub mod mt;
pub mod rtr;
