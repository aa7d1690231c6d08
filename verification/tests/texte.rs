use projet_final_notes::texte::{
    analyser_tags, caracteres, contient, ecrire_decimal, est_espace, inserer_trie, joindre,
    precede,
};

fn chaines(v: &[&str]) -> Vec<String> {
    v.iter().map(|s| s.to_string()).collect()
}

#[test]
fn caracteres_dans_l_ordre() {
    assert_eq!(caracteres("héé!"), vec!['h', 'é', 'é', '!']);
    assert_eq!(caracteres(""), Vec::<char>::new());
}

#[test]
fn contient_comme_str_contains() {
    assert!(contient("bonjour le monde", "le m"));
    assert!(contient("bonjour", ""));
    assert!(contient("", ""));
    assert!(!contient("bonjour", "jours"));
    assert!(!contient("", "a"));
    assert!(contient("ééa", "éa"));
    assert!(contient("abc", "abc"));
}

#[test]
fn espaces_unicode() {
    assert!(est_espace(' '));
    assert!(est_espace('\t'));
    assert!(est_espace('\n'));
    assert!(est_espace('\u{a0}'));
    assert!(est_espace('\u{3000}'));
    assert!(!est_espace('a'));
    assert!(!est_espace('\u{200b}'));
    for c in ['\u{85}', '\u{1680}', '\u{2000}', '\u{200a}', '\u{2028}', '\u{2029}', '\u{202f}', '\u{205f}'] {
        assert!(est_espace(c));
        assert!(c.is_whitespace());
    }
}

#[test]
fn analyser_tags_decoupe_rogne_et_ecarte_les_vides() {
    assert_eq!(analyser_tags("travail, important"), chaines(&["travail", "important"]));
    assert_eq!(analyser_tags("  a ,, b ,"), chaines(&["a", "b"]));
    assert_eq!(analyser_tags(""), Vec::<String>::new());
    assert_eq!(analyser_tags(" , ,"), Vec::<String>::new());
    assert_eq!(analyser_tags("un seul"), chaines(&["un seul"]));
    assert_eq!(analyser_tags("\u{3000}x\u{a0}"), chaines(&["x"]));
}

#[test]
fn joindre_comme_join() {
    assert_eq!(joindre(&chaines(&["a", "b", "c"]), ", "), "a, b, c");
    assert_eq!(joindre(&chaines(&["seul"]), ", "), "seul");
    assert_eq!(joindre(&Vec::new(), ", "), "");
}

#[test]
fn ressaisir_les_tags_joints_les_rend() {
    let tags = analyser_tags(" b , a ,  c d ");
    let saisie = joindre(&tags, ", ");
    assert_eq!(saisie, "b, a, c d");
    assert_eq!(analyser_tags(&saisie), tags);
}

#[test]
fn ordre_des_chaines() {
    let v = |s: &str| caracteres(s);
    assert!(precede(&v("a"), &v("b")));
    assert!(precede(&v("ab"), &v("abc")));
    assert!(precede(&v(""), &v("a")));
    assert!(!precede(&v("b"), &v("a")));
    assert!(!precede(&v("abc"), &v("abc")));
    assert!(precede(&v("Z"), &v("a")));
    assert!(precede(&v("z"), &v("é")));
    assert_eq!(precede(&v("é"), &v("z")), "é" < "z");
}

#[test]
fn inserer_trie_garde_l_ordre_sans_doublon() {
    let mut r: Vec<String> = Vec::new();
    for t in ["travail", "ami", "travail", "zèbre", "b"] {
        inserer_trie(&mut r, t.to_string());
    }
    assert_eq!(r, chaines(&["ami", "b", "travail", "zèbre"]));
}

#[test]
fn ecriture_decimale() {
    let mut s = String::from("[");
    ecrire_decimal(&mut s, 0);
    assert_eq!(s, "[0");
    let mut s = String::new();
    ecrire_decimal(&mut s, 4294967295);
    assert_eq!(s, "4294967295");
    let mut s = String::from("x");
    ecrire_decimal(&mut s, 100);
    assert_eq!(s, "x100");
}
