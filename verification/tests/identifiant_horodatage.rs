use projet_final_notes::controleur::NotesApp;
use projet_final_notes::dao::{LigneNote, SqliteDao};
use projet_final_notes::horodatage::{instant_depuis_ecart, Horodatage, SECONDES_MAX, SECONDES_MIN};
use projet_final_notes::model::Note;

fn note_datee(cree: Horodatage, modifie: Horodatage) -> Note {
    Note {
        id: 42,
        titre: "t".to_string(),
        contenu: "c".to_string(),
        tags: vec![],
        cree_le: cree,
        modifie_le: modifie,
    }
}

fn ligne(id: &str, cree: &str) -> LigneNote {
    LigneNote {
        id: id.to_string(),
        titre: "t".to_string(),
        contenu: "c".to_string(),
        tags: "[]".to_string(),
        cree_le: cree.to_string(),
        modifie_le: "2015-05-15T00:00:00+00:00".to_string(),
    }
}

#[test]
fn texte_d_un_identifiant() {
    let id = 0xa1a2a3a4b1b2c1c2d1d2d3d4d5d6d7d8u128;
    assert_eq!(SqliteDao::cle_de(id), "a1a2a3a4-b1b2-c1c2-d1d2-d3d4d5d6d7d8");
    assert_eq!(SqliteDao::cle_de(0), "00000000-0000-0000-0000-000000000000");
}

#[test]
fn identifiant_relu() {
    let id = 0x550e8400e29b41d4a716446655440000u128;
    let l = ligne(&SqliteDao::cle_de(id), "2015-05-15T00:00:00+00:00");
    assert_eq!(SqliteDao::decoder_ligne(&l).unwrap().id, id);
    let l = ligne("550E8400E29B41D4A716446655440000", "2015-05-15T00:00:00+00:00");
    assert_eq!(SqliteDao::decoder_ligne(&l).unwrap().id, id);
    let e = SqliteDao::decoder_ligne(&ligne("pas un uuid", "2015-05-15T00:00:00+00:00")).unwrap_err();
    assert!(e.starts_with("UUID invalide : "));
    assert!(e.len() > "UUID invalide : ".len());
}

#[test]
fn identifiant_aleatoire_version_4() {
    let a = Note::nouveau(String::new(), String::new(), vec![]).id;
    let b = Note::nouveau(String::new(), String::new(), vec![]).id;
    assert_ne!(a, b);
    assert_eq!((a >> 76) & 0xf, 4);
    assert_eq!((a >> 62) & 0x3, 2);
}

#[test]
fn rfc3339_ecrit_et_relu() {
    let h = Horodatage { secondes: 1431648000, nanos: 0 };
    let h2 = Horodatage { secondes: 1643723400, nanos: 123456789 };
    let l = SqliteDao::encoder_note(&note_datee(h, h2)).unwrap();
    assert_eq!(l.cree_le, "2015-05-15T00:00:00+00:00");
    assert_eq!(l.modifie_le, "2022-02-01T13:50:00.123456789+00:00");
    let n = SqliteDao::decoder_ligne(&l).unwrap();
    assert_eq!(n.cree_le, h);
    assert_eq!(n.modifie_le, h2);
    let n = SqliteDao::decoder_ligne(&ligne("00000000-0000-0000-0000-000000000001", "2012-12-12T12:12:12Z")).unwrap();
    assert_eq!(n.cree_le, Horodatage { secondes: 1355314332, nanos: 0 });
    let e = SqliteDao::decoder_ligne(&ligne("00000000-0000-0000-0000-000000000001", "hier")).unwrap_err();
    assert!(e.starts_with("Date cree_le invalide : "));
    assert!(e.len() > "Date cree_le invalide : ".len());
}

#[test]
fn rfc3339_bornes_de_l_aller_retour() {
    for (s, n) in [
        (-62167219200i64, 0u32),
        (-62167219201, 0),
        (253402300799, 999_999_999),
        (253402300800, 5),
        (0, 1_000),
        (-1, 500_000_000),
        (59, 1_500_000_000),
        (-1, 1_999_999_999),
        (SECONDES_MIN, 0),
        (SECONDES_MAX, 1_999_999_999),
    ] {
        let h = Horodatage { secondes: s, nanos: n };
        let l = SqliteDao::encoder_note(&note_datee(h, h)).unwrap();
        let relue = SqliteDao::decoder_ligne(&l).unwrap();
        assert_eq!(relue.cree_le, h);
        assert_eq!(relue.modifie_le, h);
    }
}

#[test]
fn date_du_tableau_de_bord() {
    let mut app = NotesApp::nouveau();
    let h = Horodatage { secondes: 1486219800, nanos: 0 };
    app.charger_notes(Ok(vec![note_datee(h, h)]));
    assert_eq!(app.tableau_de_bord().derniere, "04/02/2017 14:50");
}

#[test]
fn nom_d_export_date() {
    let nom = NotesApp::nom_fichier_export();
    let date = &nom["export_notes_".len()..nom.len() - ".json".len()];
    assert_eq!(date.len(), 15);
    assert!(date[..8].chars().all(|c| c.is_ascii_digit()));
    assert_eq!(&date[8..9], "_");
    assert!(date[9..].chars().all(|c| c.is_ascii_digit()));
    assert!(date.starts_with("20"));
}

#[test]
fn validite_et_ordre() {
    assert!(Horodatage { secondes: 0, nanos: 0 }.est_valide());
    assert!(Horodatage { secondes: 59, nanos: 1_500_000_000 }.est_valide());
    assert!(Horodatage { secondes: -1, nanos: 1_500_000_000 }.est_valide());
    assert!(!Horodatage { secondes: 58, nanos: 1_500_000_000 }.est_valide());
    assert!(!Horodatage { secondes: 0, nanos: 2_000_000_000 }.est_valide());
    assert!(!Horodatage { secondes: i64::MAX, nanos: 0 }.est_valide());
    let a = Horodatage { secondes: 10, nanos: 5 };
    let b = Horodatage { secondes: 10, nanos: 6 };
    let c = Horodatage { secondes: 11, nanos: 0 };
    assert!(a.est_anterieur(&b));
    assert!(b.est_anterieur(&c));
    assert!(!b.est_anterieur(&a));
    assert!(!a.est_anterieur(&a));
}

#[test]
fn maintenant_est_valide() {
    let h = Note::nouveau(String::new(), String::new(), vec![]).cree_le;
    assert!(h.est_valide());
    assert!(h.secondes > 1_600_000_000);
    assert!(h.nanos < 1_000_000_000);
}

#[test]
fn validite_comme_chrono() {
    let cas = [
        (SECONDES_MIN, 0u32),
        (SECONDES_MIN - 1, 0),
        (SECONDES_MAX, 0),
        (SECONDES_MAX + 1, 0),
        (SECONDES_MAX, 999_999_999),
        (59, 1_000_000_000),
        (58, 1_000_000_000),
        (-1, 1_999_999_999),
        (-2, 1_500_000_000),
        (0, 2_000_000_000),
        (i64::MIN, 0),
        (i64::MAX, 0),
    ];
    for (s, n) in cas {
        let h = Horodatage { secondes: s, nanos: n };
        assert_eq!(h.est_valide(), chrono::DateTime::from_timestamp(s, n).is_some(), "{s} {n}");
    }
    let bornes = note_datee(
        Horodatage { secondes: SECONDES_MIN, nanos: 0 },
        Horodatage { secondes: SECONDES_MAX, nanos: 0 },
    );
    assert!(SqliteDao::encoder_note(&bornes).is_ok());
}

#[test]
fn rfc3339_annees_signees_et_seconde_intercalaire() {
    let h = Horodatage { secondes: 59, nanos: 1_500_000_000 };
    let l = SqliteDao::encoder_note(&note_datee(h, h)).unwrap();
    assert_eq!(l.cree_le, "1970-01-01T00:00:60.500+00:00");
    let h = Horodatage { secondes: SECONDES_MIN, nanos: 0 };
    let l = SqliteDao::encoder_note(&note_datee(h, h)).unwrap();
    assert_eq!(l.cree_le, "-262143-01-01T00:00:00+00:00");
    let n = SqliteDao::decoder_ligne(&ligne("00000000-0000-0000-0000-000000000001", "-262143-01-01T00:00:00+00:00")).unwrap();
    assert_eq!(n.cree_le, Horodatage { secondes: SECONDES_MIN, nanos: 0 });
    assert!(n.cree_le.est_valide());
    let e = SqliteDao::decoder_ligne(&ligne("00000000-0000-0000-0000-000000000001", "-262143-01-01T00:00:00+01:00")).unwrap_err();
    assert!(e.starts_with("Date cree_le invalide : "));
    let n = SqliteDao::decoder_ligne(&ligne("00000000-0000-0000-0000-000000000001", "+262142-12-31T23:59:60.999999999+00:00")).unwrap();
    assert_eq!(n.cree_le, Horodatage { secondes: SECONDES_MAX, nanos: 1_999_999_999 });
}

#[test]
fn instant_de_l_horloge() {
    assert_eq!(instant_depuis_ecart(Ok((5, 7))), Horodatage { secondes: 5, nanos: 7 });
    assert_eq!(instant_depuis_ecart(Ok((0, 0))), Horodatage { secondes: 0, nanos: 0 });
    assert_eq!(instant_depuis_ecart(Err((1, 0))), Horodatage { secondes: -1, nanos: 0 });
    assert_eq!(instant_depuis_ecart(Err((1, 250_000_000))), Horodatage { secondes: -2, nanos: 750_000_000 });
    assert_eq!(
        instant_depuis_ecart(Ok((u64::MAX, 0))),
        Horodatage { secondes: SECONDES_MAX, nanos: 999_999_999 }
    );
    assert_eq!(instant_depuis_ecart(Err((u64::MAX, 3))), Horodatage { secondes: SECONDES_MIN, nanos: 0 });
    assert_eq!(
        instant_depuis_ecart(Err((8334601228800, 0))),
        Horodatage { secondes: SECONDES_MIN, nanos: 0 }
    );
    assert_eq!(
        instant_depuis_ecart(Err((8334601228799, 1))),
        Horodatage { secondes: SECONDES_MIN, nanos: 999_999_999 }
    );
}

#[test]
fn nom_d_export_a_un_instant() {
    assert_eq!(
        NotesApp::nom_fichier_export_a(Horodatage { secondes: 0, nanos: 0 }),
        "export_notes_19700101_000000.json"
    );
    assert_eq!(
        NotesApp::nom_fichier_export_a(Horodatage { secondes: 1486219845, nanos: 7 }),
        "export_notes_20170204_145045.json"
    );
}

#[test]
fn note_datee_a_un_instant() {
    let h = Horodatage { secondes: 1486219845, nanos: 7 };
    let n = Note::datee(7, h, "t".to_string(), "c".to_string(), vec!["x".to_string()]);
    assert_eq!(n.id, 7);
    assert_eq!(n.titre, "t");
    assert_eq!(n.contenu, "c");
    assert_eq!(n.tags, vec!["x".to_string()]);
    assert_eq!(n.cree_le, h);
    assert_eq!(n.modifie_le, h);
}
