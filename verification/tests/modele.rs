use projet_final_notes::horodatage::Horodatage;
use projet_final_notes::model::{AppState, Backend, Note};

fn note(id: u128, titre: &str, contenu: &str, tags: &[&str], modifie: i64) -> Note {
    Note {
        id,
        titre: titre.to_string(),
        contenu: contenu.to_string(),
        tags: tags.iter().map(|s| s.to_string()).collect(),
        cree_le: Horodatage { secondes: 0, nanos: 0 },
        modifie_le: Horodatage { secondes: modifie, nanos: 0 },
    }
}

fn etat() -> AppState {
    let mut s = AppState::default();
    s.notes.push(note(1, "Courses", "Acheter du PAIN", &["maison"], 100));
    s.notes.push(note(2, "Réunion", "Préparer l'ordre du jour", &["travail", "important"], 300));
    s.notes.push(note(3, "Idées", "Écrire un roman", &["perso", "travail"], 200));
    s
}

#[test]
fn nouvelle_note() {
    let n = Note::nouveau("Titre".to_string(), "Corps".to_string(), vec!["a".to_string()]);
    assert_eq!(n.titre, "Titre");
    assert_eq!(n.contenu, "Corps");
    assert_eq!(n.tags, vec!["a".to_string()]);
    assert_eq!(n.cree_le, n.modifie_le);
    assert!(n.cree_le.est_valide());
    let m = Note::nouveau("Titre".to_string(), String::new(), vec![]);
    assert_ne!(n.id, m.id);
}

#[test]
fn dupliquer_une_note() {
    let n = note(7, "t", "c", &["x", "y"], 5);
    let d = n.dupliquer();
    assert_eq!(d.id, 7);
    assert_eq!(d.titre, "t");
    assert_eq!(d.contenu, "c");
    assert_eq!(d.tags, vec!["x".to_string(), "y".to_string()]);
    assert_eq!(d.modifie_le, n.modifie_le);
}

#[test]
fn backend_libelle_et_bascule() {
    assert_eq!(Backend::Json.libelle(), "JSON");
    assert_eq!(Backend::Sqlite.libelle(), "SQLite");
    assert_eq!(Backend::Json.autre(), Backend::Sqlite);
    assert_eq!(Backend::Sqlite.autre(), Backend::Json);
    assert_eq!(Backend::Json.autre().autre(), Backend::Json);
}

#[test]
fn etat_par_defaut() {
    let s = AppState::default();
    assert!(s.notes.is_empty());
    assert!(s.filtre.is_empty());
    assert!(s.tag_filtre.is_none());
    assert!(s.notes_filtrees().is_empty());
    assert!(s.tous_les_tags().is_empty());
    assert!(s.derniere_modification().is_none());
}

#[test]
fn filtre_sans_rien_garde_tout() {
    let s = etat();
    let ids: Vec<u128> = s.notes_filtrees().iter().map(|n| n.id).collect();
    assert_eq!(ids, vec![1, 2, 3]);
}

#[test]
fn filtre_texte_sans_casse() {
    let mut s = etat();
    s.filtre = "pain".to_string();
    let ids: Vec<u128> = s.notes_filtrees().iter().map(|n| n.id).collect();
    assert_eq!(ids, vec![1]);
    s.filtre = "RÉU".to_string();
    let ids: Vec<u128> = s.notes_filtrees().iter().map(|n| n.id).collect();
    assert_eq!(ids, vec![2]);
    s.filtre = "écrire".to_string();
    let ids: Vec<u128> = s.notes_filtrees().iter().map(|n| n.id).collect();
    assert_eq!(ids, vec![3]);
    s.filtre = "absent".to_string();
    assert!(s.notes_filtrees().is_empty());
}

#[test]
fn filtre_tag_et_texte() {
    let mut s = etat();
    s.tag_filtre = Some("travail".to_string());
    let ids: Vec<u128> = s.notes_filtrees().iter().map(|n| n.id).collect();
    assert_eq!(ids, vec![2, 3]);
    s.filtre = "roman".to_string();
    let ids: Vec<u128> = s.notes_filtrees().iter().map(|n| n.id).collect();
    assert_eq!(ids, vec![3]);
    s.tag_filtre = Some("trav".to_string());
    assert!(s.notes_filtrees().is_empty());
}

#[test]
fn tags_uniques_tries() {
    let s = etat();
    assert_eq!(
        s.tous_les_tags(),
        vec!["important", "maison", "perso", "travail"].iter().map(|s| s.to_string()).collect::<Vec<_>>()
    );
}

#[test]
fn derniere_modification_la_plus_recente() {
    let s = etat();
    assert_eq!(s.derniere_modification(), Some(Horodatage { secondes: 300, nanos: 0 }));
    let mut t = AppState::default();
    t.notes.push(note(1, "a", "", &[], 5));
    t.notes.push(note(2, "b", "", &[], 5));
    t.notes[1].modifie_le.nanos = 1;
    assert_eq!(t.derniere_modification(), Some(Horodatage { secondes: 5, nanos: 1 }));
}

fn ids_filtres(s: &AppState) -> Vec<u128> {
    s.notes_filtrees().iter().map(|n| n.id).collect()
}

#[test]
fn filtres_combines_par_et() {
    for (texte, tag) in [("a", "travail"), ("roman", "travail"), ("pain", "maison"), ("", "perso"), ("e", "absent")] {
        let mut s = etat();
        s.filtre = texte.to_string();
        s.tag_filtre = Some(tag.to_string());
        let ensemble = ids_filtres(&s);
        s.tag_filtre = None;
        let par_texte = ids_filtres(&s);
        s.filtre = String::new();
        s.tag_filtre = Some(tag.to_string());
        let par_tag = ids_filtres(&s);
        let attendu: Vec<u128> = par_texte.iter().copied().filter(|i| par_tag.contains(i)).collect();
        assert_eq!(ensemble, attendu, "{texte} {tag}");
    }
}

#[test]
fn filtre_par_tag_seul() {
    let s = etat();
    let tags = s.tous_les_tags();
    for tag in ["important", "maison", "perso", "travail", "trav", "absent"] {
        let mut t = etat();
        t.tag_filtre = Some(tag.to_string());
        let retenues = t.notes_filtrees();
        assert_eq!(!retenues.is_empty(), tags.contains(&tag.to_string()), "{tag}");
        assert!(retenues.iter().all(|n| n.tags.contains(&tag.to_string())));
    }
}
