//! Gestionnaire de notes : le cœur vérifié de l'application.
pub mod texte;
pub mod horodatage;
pub mod identifiant;
pub mod model;
pub mod dao;
pub mod api;
pub mod controleur;
