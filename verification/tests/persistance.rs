use projet_final_notes::dao::{introuvable, JsonDao, LigneNote, SqliteDao};
use projet_final_notes::horodatage::Horodatage;
use projet_final_notes::model::Note;
use std::path::PathBuf;

fn note(id: u128, titre: &str, tags: &[&str]) -> Note {
    Note {
        id,
        titre: titre.to_string(),
        contenu: format!("contenu de {titre}"),
        tags: tags.iter().map(|s| s.to_string()).collect(),
        cree_le: Horodatage { secondes: 1431648000, nanos: 0 },
        modifie_le: Horodatage { secondes: 1643723400, nanos: 123456789 },
    }
}

fn ids(v: &[Note]) -> Vec<u128> {
    v.iter().map(|n| n.id).collect()
}

#[test]
fn json_dao_garde_son_chemin() {
    let d = JsonDao::nouveau(PathBuf::from("/tmp/notes.json"));
    assert_eq!(d.chemin(), &PathBuf::from("/tmp/notes.json"));
}

#[test]
fn json_creer_ajoute_a_la_fin() {
    let mut v = vec![note(1, "a", &[])];
    JsonDao::creer_dans(&mut v, &note(2, "b", &["x"]));
    assert_eq!(ids(&v), vec![1, 2]);
    assert_eq!(v[1].titre, "b");
    assert_eq!(v[1].tags, vec!["x".to_string()]);
}

#[test]
fn json_mettre_a_jour_remplace_la_premiere() {
    let mut v = vec![note(1, "a", &[]), note(2, "b", &[]), note(2, "b bis", &[])];
    let mut n = note(2, "nouveau", &["t"]);
    n.modifie_le = Horodatage { secondes: 9, nanos: 9 };
    assert!(JsonDao::mettre_a_jour_dans(&mut v, &n).is_ok());
    assert_eq!(ids(&v), vec![1, 2, 2]);
    assert_eq!(v[1].titre, "nouveau");
    assert_eq!(v[1].modifie_le, Horodatage { secondes: 9, nanos: 9 });
    assert_eq!(v[2].titre, "b bis");
}

#[test]
fn json_mettre_a_jour_introuvable() {
    let mut v = vec![note(1, "a", &[])];
    let id = 0x550e8400e29b41d4a716446655440000u128;
    let e = JsonDao::mettre_a_jour_dans(&mut v, &note(id, "x", &[])).unwrap_err();
    assert_eq!(e, "Note 550e8400-e29b-41d4-a716-446655440000 introuvable");
    assert_eq!(ids(&v), vec![1]);
    assert_eq!(v[0].titre, "a");
}

#[test]
fn json_supprimer_retire_toutes() {
    let mut v = vec![note(1, "a", &[]), note(2, "b", &[]), note(1, "c", &[]), note(3, "d", &[])];
    assert!(JsonDao::supprimer_dans(&mut v, 1).is_ok());
    assert_eq!(ids(&v), vec![2, 3]);
    let e = JsonDao::supprimer_dans(&mut v, 1).unwrap_err();
    assert_eq!(e, format!("Note {} introuvable", SqliteDao::cle_de(1)));
    assert_eq!(ids(&v), vec![2, 3]);
}

#[test]
fn json_supprimer_apres_creer_rend_la_liste() {
    let mut v = vec![note(1, "a", &[]), note(2, "b", &[])];
    JsonDao::creer_dans(&mut v, &note(9, "neuve", &[]));
    assert!(JsonDao::supprimer_dans(&mut v, 9).is_ok());
    assert_eq!(ids(&v), vec![1, 2]);
}

#[test]
fn message_introuvable() {
    assert_eq!(introuvable(0), "Note 00000000-0000-0000-0000-000000000000 introuvable");
}

#[test]
fn sqlite_nouveau() {
    let d = SqliteDao::nouveau(PathBuf::from("/tmp/notes.db"), Ok(())).unwrap();
    assert_eq!(d.chemin(), &PathBuf::from("/tmp/notes.db"));
    let e = SqliteDao::nouveau(PathBuf::from("/tmp/notes.db"), Err("Création table échouée : x".to_string()));
    assert_eq!(e.err().unwrap(), "Création table échouée : x");
}

#[test]
fn sqlite_encoder_une_note() {
    let id = 0xa1a2a3a4b1b2c1c2d1d2d3d4d5d6d7d8u128;
    let l = SqliteDao::encoder_note(&note(id, "T", &["a", "b\"c", "\\", "\n"])).unwrap();
    assert_eq!(l.id, "a1a2a3a4-b1b2-c1c2-d1d2-d3d4d5d6d7d8");
    assert_eq!(l.titre, "T");
    assert_eq!(l.contenu, "contenu de T");
    assert_eq!(l.tags, r#"["a","b\"c","\\","\n"]"#);
    assert_eq!(l.cree_le, "2015-05-15T00:00:00+00:00");
    assert_eq!(l.modifie_le, "2022-02-01T13:50:00.123456789+00:00");
    let vide = SqliteDao::encoder_note(&note(id, "T", &[])).unwrap();
    assert_eq!(vide.tags, "[]");
    let ctrl = SqliteDao::encoder_note(&note(id, "T", &["\u{1}\u{1f}é"])).unwrap();
    assert_eq!(ctrl.tags, "[\"\\u0001\\u001fé\"]");
}

#[test]
fn sqlite_aller_retour() {
    let n = note(0x1234, "Titre", &["travail", "à faire"]);
    let l = SqliteDao::encoder_note(&n).unwrap();
    let m = SqliteDao::decoder_ligne(&l).unwrap();
    assert_eq!(m.id, n.id);
    assert_eq!(m.titre, n.titre);
    assert_eq!(m.contenu, n.contenu);
    assert_eq!(m.tags, n.tags);
    assert_eq!(m.cree_le, n.cree_le);
    assert_eq!(m.modifie_le, n.modifie_le);
}

fn ligne() -> LigneNote {
    LigneNote {
        id: "550e8400-e29b-41d4-a716-446655440000".to_string(),
        titre: "t".to_string(),
        contenu: "c".to_string(),
        tags: r#"["x"]"#.to_string(),
        cree_le: "2015-05-15T00:00:00+00:00".to_string(),
        modifie_le: "2015-05-15T00:00:00+00:00".to_string(),
    }
}

#[test]
fn sqlite_decoder_les_erreurs() {
    let mut l = ligne();
    l.id = "zz".to_string();
    assert!(SqliteDao::decoder_ligne(&l).unwrap_err().starts_with("UUID invalide : "));
    let mut l = ligne();
    l.tags = "[1]".to_string();
    assert!(SqliteDao::decoder_ligne(&l).unwrap_err().starts_with("Tags JSON invalides : "));
    let mut l = ligne();
    l.cree_le = "hier".to_string();
    assert!(SqliteDao::decoder_ligne(&l).unwrap_err().starts_with("Date cree_le invalide : "));
    let mut l = ligne();
    l.modifie_le = "demain".to_string();
    assert!(SqliteDao::decoder_ligne(&l).unwrap_err().starts_with("Date modifie_le invalide : "));
    let mut l = ligne();
    l.id = "zz".to_string();
    l.tags = "[1]".to_string();
    assert!(SqliteDao::decoder_ligne(&l).unwrap_err().starts_with("UUID invalide : "));
}

#[test]
fn sqlite_decoder_les_lignes() {
    let v = vec![Ok(ligne()), Ok(ligne())];
    let notes = SqliteDao::decoder_lignes(&v).unwrap();
    assert_eq!(notes.len(), 2);
    assert_eq!(notes[0].id, 0x550e8400e29b41d4a716446655440000u128);
    assert_eq!(notes[1].tags, vec!["x".to_string()]);
    let mut mauvaise = ligne();
    mauvaise.tags = "pas du json".to_string();
    let v = vec![Ok(ligne()), Err("colonne".to_string()), Ok(mauvaise)];
    assert_eq!(SqliteDao::decoder_lignes(&v).unwrap_err(), "Ligne invalide : colonne");
    let mut mauvaise = ligne();
    mauvaise.tags = "pas du json".to_string();
    let v = vec![Ok(ligne()), Ok(mauvaise), Err("colonne".to_string())];
    assert!(SqliteDao::decoder_lignes(&v).unwrap_err().starts_with("Tags JSON invalides : "));
    assert!(SqliteDao::decoder_lignes(&Vec::new()).unwrap().is_empty());
}

#[test]
fn sqlite_verifier_modification() {
    assert!(SqliteDao::verifier_modification(1, 5).is_ok());
    assert_eq!(
        SqliteDao::verifier_modification(0, 5).unwrap_err(),
        "Note 00000000-0000-0000-0000-000000000005 introuvable"
    );
}

#[test]
fn sqlite_lignes_ecrites_relues() {
    let notes = vec![note(1, "a", &["x"]), note(2, "b", &[]), note(3, "c", &["y", "z"])];
    let lignes: Vec<Result<LigneNote, String>> =
        notes.iter().map(|n| Ok(SqliteDao::encoder_note(n).unwrap())).collect();
    let relues = SqliteDao::decoder_lignes(&lignes).unwrap();
    assert_eq!(ids(&relues), vec![1, 2, 3]);
    for (a, b) in notes.iter().zip(relues.iter()) {
        assert_eq!(a.titre, b.titre);
        assert_eq!(a.contenu, b.contenu);
        assert_eq!(a.tags, b.tags);
        assert_eq!(a.cree_le, b.cree_le);
        assert_eq!(a.modifie_le, b.modifie_le);
    }
}
