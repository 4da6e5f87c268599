pub mod dt;
