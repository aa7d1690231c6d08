use projet_final_notes::api::{formater_titre, notes_depuis_publications, Publication};
use projet_final_notes::controleur::{NotesApp, Reception, ResultatExport};
use projet_final_notes::horodatage::Horodatage;
use projet_final_notes::model::{Backend, Note};

fn publication(id: u32) -> Publication {
    Publication { id, title: format!("titre {id}"), body: format!("corps {id}") }
}

fn note(id: u128, titre: &str, tags: &[&str], modifie: i64) -> Note {
    Note {
        id,
        titre: titre.to_string(),
        contenu: format!("contenu de {titre}"),
        tags: tags.iter().map(|s| s.to_string()).collect(),
        cree_le: Horodatage { secondes: 0, nanos: 0 },
        modifie_le: Horodatage { secondes: modifie, nanos: 0 },
    }
}

#[test]
fn titre_importe() {
    assert_eq!(formater_titre(7, "Bonjour"), "[7] Bonjour");
    assert_eq!(formater_titre(100, ""), "[100] ");
}

#[test]
fn import_limite_a_vingt() {
    let posts: Vec<Publication> = (1..=100).map(publication).collect();
    let notes = notes_depuis_publications(&posts);
    assert_eq!(notes.len(), 20);
    assert_eq!(notes[0].titre, "[1] titre 1");
    assert_eq!(notes[0].contenu, "corps 1");
    assert_eq!(notes[0].tags, vec!["import".to_string()]);
    assert_eq!(notes[19].titre, "[20] titre 20");
    assert_eq!(notes[0].cree_le, notes[0].modifie_le);
    let peu: Vec<Publication> = (1..=3).map(publication).collect();
    assert_eq!(notes_depuis_publications(&peu).len(), 3);
    assert!(notes_depuis_publications(&Vec::new()).is_empty());
}

fn app_chargee() -> NotesApp {
    let mut app = NotesApp::nouveau();
    app.charger_notes(Ok(vec![note(1, "a", &["x", "y"], 10), note(2, "b", &[], 20)]));
    app
}

#[test]
fn depart_et_chargement() {
    let mut app = NotesApp::nouveau();
    assert_eq!(app.backend, Backend::Json);
    assert!(app.state.notes.is_empty());
    assert!(app.selected_note.is_none());
    assert!(!app.theme_sombre);
    app.charger_notes(Err("Lecture JSON échouée : x".to_string()));
    assert_eq!(app.erreur.as_deref(), Some("Lecture JSON échouée : x"));
    let app = app_chargee();
    assert_eq!(app.state.notes.len(), 2);
}

#[test]
fn creation_d_une_note() {
    let mut app = app_chargee();
    let n = NotesApp::preparer_nouvelle_note();
    assert_eq!(n.titre, "Nouvelle note");
    assert_eq!(n.contenu, "");
    let id = n.id;
    app.edit_tags = "vieux".to_string();
    app.terminer_nouvelle_note(n, Ok(()));
    assert_eq!(app.state.notes.len(), 3);
    assert_eq!(app.selected_note, Some(id));
    assert_eq!(app.edit_titre, "Nouvelle note");
    assert_eq!(app.edit_tags, "");
    let n2 = NotesApp::preparer_nouvelle_note();
    app.terminer_nouvelle_note(n2, Err("disque plein".to_string()));
    assert_eq!(app.state.notes.len(), 3);
    assert_eq!(app.erreur.as_deref(), Some("disque plein"));
    assert_eq!(app.selected_note, Some(id));
}

#[test]
fn selection_puis_sauvegarde() {
    let mut app = app_chargee();
    app.selectionner_note(1);
    assert_eq!(app.edit_titre, "a");
    assert_eq!(app.edit_contenu, "contenu de a");
    assert_eq!(app.edit_tags, "x, y");
    app.edit_titre = "a modifié".to_string();
    app.edit_tags = " z ,, w ".to_string();
    let n = app.preparer_sauvegarde().unwrap();
    assert_eq!(n.id, 1);
    assert_eq!(n.titre, "a modifié");
    assert_eq!(n.tags, vec!["z".to_string(), "w".to_string()]);
    assert_eq!(app.state.notes[0].titre, "a modifié");
    assert!(app.state.notes[0].modifie_le.secondes > 1_600_000_000);
    app.terminer_operation(Err("Note introuvable".to_string()));
    assert_eq!(app.erreur.as_deref(), Some("Note introuvable"));
    app.terminer_operation(Ok(()));
    assert!(app.erreur.is_none());
}

#[test]
fn sauvegarde_a_un_instant() {
    let mut app = app_chargee();
    app.selectionner_note(1);
    app.edit_titre = "b".to_string();
    let h = Horodatage { secondes: 1486219845, nanos: 7 };
    let n = app.preparer_sauvegarde_a(h).unwrap();
    assert_eq!(n.modifie_le, h);
    assert_eq!(app.state.notes[0].modifie_le, h);
    assert_eq!(app.state.notes[0].titre, "b");
    assert_eq!(n.cree_le, app.state.notes[0].cree_le);
}

#[test]
fn sauvegarde_sans_effet() {
    let mut app = app_chargee();
    assert!(app.preparer_sauvegarde().is_none());
    app.selectionner_note(42);
    assert_eq!(app.selected_note, Some(42));
    assert!(app.preparer_sauvegarde().is_none());
    assert_eq!(app.state.notes[0].titre, "a");
}

#[test]
fn suppression() {
    let mut app = app_chargee();
    app.selectionner_note(2);
    let id = app.note_a_supprimer().unwrap();
    app.terminer_suppression(id, Err("Note introuvable".to_string()));
    assert_eq!(app.state.notes.len(), 2);
    assert_eq!(app.selected_note, Some(2));
    app.terminer_suppression(id, Ok(()));
    assert_eq!(app.state.notes.len(), 1);
    assert_eq!(app.state.notes[0].id, 1);
    assert!(app.selected_note.is_none());
    assert_eq!(app.edit_titre, "");
    assert!(app.note_a_supprimer().is_none());
}

#[test]
fn bascule_de_backend() {
    let mut app = app_chargee();
    app.selectionner_note(1);
    assert_eq!(app.backend_cible(), Backend::Sqlite);
    app.terminer_bascule(Err("Connexion SQLite échouée : x".to_string()));
    assert_eq!(app.backend, Backend::Json);
    assert_eq!(app.erreur.as_deref(), Some("Connexion SQLite échouée : x"));
    app.terminer_bascule(Ok((Backend::Sqlite, Ok(vec![note(5, "c", &[], 1)]))));
    assert_eq!(app.backend, Backend::Sqlite);
    assert_eq!(app.state.notes.len(), 1);
    assert!(app.selected_note.is_none());
    assert!(app.erreur.is_none());
    app.terminer_bascule(Ok((Backend::Json, Err("illisible".to_string()))));
    assert_eq!(app.backend, Backend::Json);
    assert_eq!(app.state.notes.len(), 1);
    assert!(app.erreur.is_none());
}

#[test]
fn import_rest() {
    let mut app = app_chargee();
    assert!(app.demarrer_import());
    assert!(!app.demarrer_import());
    assert!(app.recevoir_import(Reception::Rien).is_none());
    assert!(app.import_en_cours);
    let notes = app.recevoir_import(Reception::Recu(Ok(vec![note(7, "i", &["import"], 1), note(8, "j", &[], 1)]))).unwrap();
    assert!(!app.import_en_cours);
    let mut continuer = true;
    let mut premier = true;
    for n in notes {
        if !continuer {
            break;
        }
        let r = if premier { Ok(()) } else { Err("Insertion SQLite échouée : x".to_string()) };
        premier = false;
        continuer = app.integrer_note_importee(n, r);
    }
    assert_eq!(app.state.notes.len(), 3);
    assert_eq!(app.erreur.as_deref(), Some("Insertion SQLite échouée : x"));
    app.terminer_import();
    assert!(app.erreur.is_none());
    app.demarrer_import();
    assert!(app.recevoir_import(Reception::Recu(Err("délai".to_string()))).is_none());
    assert_eq!(app.erreur.as_deref(), Some("Import REST : délai"));
    app.demarrer_import();
    assert!(app.recevoir_import(Reception::Deconnecte).is_none());
    assert_eq!(app.erreur.as_deref(), Some("Import REST : Canal de réception déconnecté"));
    assert!(!app.import_en_cours);
}

#[test]
fn export() {
    let nom = NotesApp::nom_fichier_export();
    assert!(nom.starts_with("export_notes_"));
    assert!(nom.ends_with(".json"));
    assert_eq!(nom.len(), "export_notes_20240101_120000.json".len());
    let mut app = app_chargee();
    app.terminer_export(ResultatExport::Ecrit("/tmp/x.json".to_string()));
    assert_eq!(app.export_statut.as_deref(), Some("Exporté : /tmp/x.json"));
    app.terminer_export(ResultatExport::EchecEcriture("refusé".to_string()));
    assert_eq!(app.erreur.as_deref(), Some("Export échoué : refusé"));
    app.terminer_export(ResultatExport::EchecSerialisation("?".to_string()));
    assert_eq!(app.erreur.as_deref(), Some("Sérialisation export : ?"));
}

#[test]
fn interface_divers() {
    let mut app = app_chargee();
    app.selectionner_note(1);
    app.erreur = Some("x".to_string());
    app.effacer_erreur();
    assert!(app.erreur.is_none());
    assert!(app.basculer_theme());
    assert!(!app.basculer_theme());
    app.basculer_dashboard();
    assert!(app.afficher_dashboard);
    app.deselectionner();
    assert!(app.selected_note.is_none());
    assert_eq!(app.edit_tags, "");
}

#[test]
fn tableau_de_bord() {
    let app = app_chargee();
    let t = app.tableau_de_bord();
    assert_eq!(t.total, 2);
    assert_eq!(t.nb_tags, 2);
    assert_eq!(t.derniere, "01/01/1970 00:00");
    let vide = NotesApp::nouveau();
    let t = vide.tableau_de_bord();
    assert_eq!(t.total, 0);
    assert_eq!(t.nb_tags, 0);
    assert_eq!(t.derniere, "—");
}
