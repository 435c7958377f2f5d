//! The steps of booklet processing: what each one runs and how its outcome is judged.
pub mod bleed;
pub mod impose;
pub mod pad;
pub mod signature;
