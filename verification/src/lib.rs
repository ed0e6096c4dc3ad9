//! Verified core of an automated quiz-playing session.
//!
//! The library holds the decision logic of the player: normalising scraped
//! question text, caching and reusing confirmed answers, the CAPTCHA
//! acceptance policy with its retry loop, the one-shot submission cooldown,
//! and the confirmation protocol that classifies server rejection alerts.
//! All browser automation, OCR and persistence stay outside; they hand the
//! library plain strings and booleans and carry out the actions it decides.

pub mod cache;
pub mod captcha;
pub mod confirm;
pub mod question;
pub mod session;
pub mod text;
