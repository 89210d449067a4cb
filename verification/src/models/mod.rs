pub mod domain;
