pub mod kinds;
pub mod combat;
pub mod fsm;
