pub mod farm;
pub mod slot;
pub mod token_amount;
pub mod farm_laws;
