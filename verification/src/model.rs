//! Le modèle : les notes, le backend de persistance choisi et l'état des
//! filtres, avec les requêtes qu'en tire l'interface.
use crate::horodatage::{maintenant, Horodatage};
use crate::identifiant::{nouvel_identifiant, uuid_v4};
use crate::texte::{
    contient, est_sous_chaine, en_minuscules, inserer_trie, minuscules,
    strictement_trie, vues, avant, loi_avant_irreflexif,
};
use vstd::prelude::*;
use vstd::string::*;

verus! {

broadcast use vstd::string::group_string_axioms;

/// Une note et ses métadonnées.
#[derive(Debug)]
pub struct Note {
    pub id: u128,
    pub titre: String,
    pub contenu: String,
    pub tags: Vec<String>,
    pub cree_le: Horodatage,
    pub modifie_le: Horodatage,
}

/// Ce que contient une note, vu comme des valeurs mathématiques.
pub struct FicheNote {
    pub id: u128,
    pub titre: Seq<char>,
    pub contenu: Seq<char>,
    pub tags: Seq<Seq<char>>,
    pub cree_le: Horodatage,
    pub modifie_le: Horodatage,
}

impl View for Note {
    type V = FicheNote;

    open spec fn view(&self) -> FicheNote {
        FicheNote {
            id: self.id,
            titre: self.titre@,
            contenu: self.contenu@,
            tags: vues(self.tags@),
            cree_le: self.cree_le,
            modifie_le: self.modifie_le,
        }
    }
}

/// Les fiches d'une suite de notes.
pub open spec fn fiches(notes: Seq<Note>) -> Seq<FicheNote> {
    notes.map_values(|n: Note| n@)
}

/// Les instants de la note existent pour `chrono`.
pub open spec fn fiche_datee(f: FicheNote) -> bool {
    f.cree_le.valide() && f.modifie_le.valide()
}

/// Toutes les notes ont des instants qui existent pour `chrono`.
pub open spec fn notes_datees(notes: Seq<FicheNote>) -> bool {
    forall|i: int| 0 <= i < notes.len() ==> fiche_datee(#[trigger] notes[i])
}

/// Copie les chaînes d'un vecteur.
pub fn copier_chaines(v: &Vec<String>) -> (r: Vec<String>)
    ensures
        vues(r@) == vues(v@),
{
    let mut r: Vec<String> = Vec::new();
    let n = v.len();
    let mut i: usize = 0;
    while i < n
        invariant
            n == v@.len(),
            i <= n,
            r@.len() == i,
            vues(r@) == vues(v@).take(i as int),
        decreases n - i,
    {
        let c = v[i].clone();
        let ghost avant = r@;
        r.push(c);
        assert(r@ == avant.push(c));
        assert(vues(r@) =~= vues(v@).take(i + 1)) by {
            assert(vues(r@)[i as int] == c@);
        }
        i = i + 1;
    }
    assert(vues(v@).take(n as int) =~= vues(v@));
    r
}

impl Note {
    /// La note d'identifiant `id`, créée et modifiée à l'instant `instant`.
    pub fn datee(id: u128, instant: Horodatage, titre: String, contenu: String, tags: Vec<String>) -> (r: Note)
        ensures
            r.id == id,
            r.titre == titre,
            r.contenu == contenu,
            r.tags == tags,
            r.cree_le == instant,
            r.modifie_le == instant,
    {
        Note { id, titre, contenu, tags, cree_le: instant, modifie_le: instant }
    }

    /// Crée une note datée de maintenant, avec un identifiant tiré au hasard.
    pub fn nouveau(titre: String, contenu: String, tags: Vec<String>) -> (r: Note)
        ensures
            r.titre == titre,
            r.contenu == contenu,
            r.tags == tags,
            r.cree_le == r.modifie_le,
            r.cree_le.valide(),
            r.cree_le.nanos < 1_000_000_000,
            uuid_v4(r.id),
    {
        let id = nouvel_identifiant();
        Note::datee(id, maintenant(), titre, contenu, tags)
    }

    /// Une copie de la note.
    pub fn dupliquer(&self) -> (r: Note)
        ensures
            r@ == self@,
    {
        Note {
            id: self.id,
            titre: self.titre.clone(),
            contenu: self.contenu.clone(),
            tags: copier_chaines(&self.tags),
            cree_le: self.cree_le,
            modifie_le: self.modifie_le,
        }
    }
}

/// Backend de persistance sélectionné.
#[derive(Debug, Clone, Copy, PartialEq, Eq, Structural)]
pub enum Backend {
    Json,
    Sqlite,
}

impl Backend {
    /// Le nom du backend tel que l'interface l'affiche.
    pub open spec fn nom(self) -> Seq<char> {
        match self {
            Backend::Json => "JSON"@,
            Backend::Sqlite => "SQLite"@,
        }
    }

    /// Le nom du backend : « JSON » ou « SQLite ».
    pub fn libelle(&self) -> (r: String)
        ensures
            r@ == self.nom(),
    {
        match self {
            Backend::Json => String::from_str("JSON"),
            Backend::Sqlite => String::from_str("SQLite"),
        }
    }

    /// L'autre backend.
    pub open spec fn oppose(self) -> Backend {
        match self {
            Backend::Json => Backend::Sqlite,
            Backend::Sqlite => Backend::Json,
        }
    }

    /// L'autre backend : celui vers lequel on bascule.
    pub fn autre(&self) -> (r: Backend)
        ensures
            r == self.oppose(),
            r != *self,
    {
        match self {
            Backend::Json => Backend::Sqlite,
            Backend::Sqlite => Backend::Json,
        }
    }
}

/// Loi : basculer deux fois de backend ramène au backend de départ.
pub proof fn loi_double_bascule(b: Backend)
    ensures
        b.oppose().oppose() == b,
        b.oppose() != b,
{
}

/// État global de l'application : les notes et les filtres.
pub struct AppState {
    pub notes: Vec<Note>,
    pub filtre: String,
    pub tag_filtre: Option<String>,
}

impl Default for AppState {
    fn default() -> (r: AppState)
        ensures
            r.notes@.len() == 0,
            r.filtre@.len() == 0,
            r.tag_filtre is None,
    {
        AppState { notes: Vec::new(), filtre: String::new(), tag_filtre: None }
    }
}

/// La vue d'un tag facultatif.
pub open spec fn vue_option(t: Option<String>) -> Option<Seq<char>> {
    match t {
        Some(s) => Some(s@),
        None => None,
    }
}

/// La note satisfait le filtre texte (sans égard à la casse, sur le titre ou
/// le contenu ; un filtre vide laisse tout passer) et le filtre tag.
pub open spec fn correspond(n: FicheNote, filtre: Seq<char>, tag: Option<Seq<char>>) -> bool {
    let f = en_minuscules(filtre);
    let texte_ok = filtre.len() == 0 || f.len() == 0 || est_sous_chaine(f, en_minuscules(n.titre))
        || est_sous_chaine(f, en_minuscules(n.contenu));
    let tag_ok = match tag {
        None => true,
        Some(t) => n.tags.contains(t),
    };
    texte_ok && tag_ok
}

/// Les notes qui satisfont les filtres, dans leur ordre.
pub open spec fn retenues(notes: Seq<FicheNote>, filtre: Seq<char>, tag: Option<Seq<char>>) -> Seq<
    FicheNote,
>
    decreases notes.len(),
{
    if notes.len() == 0 {
        Seq::<FicheNote>::empty()
    } else {
        let r = retenues(notes.drop_last(), filtre, tag);
        if correspond(notes.last(), filtre, tag) {
            r.push(notes.last())
        } else {
            r
        }
    }
}

proof fn lemme_sans_filtre(notes: Seq<FicheNote>, filtre: Seq<char>)
    requires
        filtre.len() == 0,
    ensures
        retenues(notes, filtre, None) == notes,
    decreases notes.len(),
{
    if notes.len() > 0 {
        lemme_sans_filtre(notes.drop_last(), filtre);
        assert(notes.drop_last().push(notes.last()) =~= notes);
    }
}

/// Une note est retenue exactement quand elle figure parmi les notes et
/// satisfait les filtres.
pub proof fn lemme_retenue(
    notes: Seq<FicheNote>,
    filtre: Seq<char>,
    tag: Option<Seq<char>>,
    n: FicheNote,
)
    ensures
        retenues(notes, filtre, tag).contains(n) <==> notes.contains(n) && correspond(
            n,
            filtre,
            tag,
        ),
    decreases notes.len(),
{
    if notes.len() > 0 {
        let debut = notes.drop_last();
        let r = retenues(debut, filtre, tag);
        lemme_retenue(debut, filtre, tag, n);
        assert(notes =~= debut.push(notes.last()));
        if notes.contains(n) {
            let i = choose|i: int| 0 <= i < notes.len() && notes[i] == n;
            if i < notes.len() - 1 {
                assert(debut[i] == n);
            }
        }
        if debut.contains(n) {
            let i = choose|i: int| 0 <= i < debut.len() && debut[i] == n;
            assert(notes[i] == n);
        }
        if correspond(notes.last(), filtre, tag) {
            let rp = r.push(notes.last());
            if rp.contains(n) {
                let i = choose|i: int| 0 <= i < rp.len() && rp[i] == n;
                if i < r.len() {
                    assert(r[i] == n);
                }
            }
            if r.contains(n) {
                let i = choose|i: int| 0 <= i < r.len() && r[i] == n;
                assert(rp[i] == n);
            }
            assert(rp[r.len() as int] == notes.last());
        }
        assert(notes[notes.len() - 1] == notes.last());
    }
}

/// Filtrer par texte et par tag, c'est filtrer par texte puis garder, de ce
/// qui reste et dans le même ordre, les notes qui portent le tag : les deux
/// filtres se combinent par un « et ».
pub proof fn loi_filtres_combines(notes: Seq<FicheNote>, filtre: Seq<char>, t: Seq<char>)
    ensures
        retenues(notes, filtre, Some(t)) == retenues(
            retenues(notes, filtre, None),
            Seq::<char>::empty(),
            Some(t),
        ),
        forall|n: FicheNote|
            #[trigger] retenues(notes, filtre, Some(t)).contains(n) <==> retenues(
                notes,
                filtre,
                None,
            ).contains(n) && retenues(notes, Seq::<char>::empty(), Some(t)).contains(n),
    decreases notes.len(),
{
    if notes.len() > 0 {
        let debut = notes.drop_last();
        let x = notes.last();
        loi_filtres_combines(debut, filtre, t);
        let interieur = retenues(debut, filtre, None);
        if correspond(x, filtre, None) {
            assert(interieur.push(x).drop_last() =~= interieur);
        }
    }
    assert forall|n: FicheNote|
        #[trigger] retenues(notes, filtre, Some(t)).contains(n) <==> retenues(
            notes,
            filtre,
            None,
        ).contains(n) && retenues(notes, Seq::<char>::empty(), Some(t)).contains(n) by {
        lemme_retenue(notes, filtre, Some(t), n);
        lemme_retenue(notes, filtre, None, n);
        lemme_retenue(notes, Seq::<char>::empty(), Some(t), n);
    }
}

/// Avec le seul filtre tag `t`, chaque note retenue porte `t`, et il en est
/// retenu une dès qu'une note porte `t`.
pub proof fn loi_filtre_tag_seul(notes: Seq<FicheNote>, t: Seq<char>)
    ensures
        forall|k: int|
            0 <= k < retenues(notes, Seq::<char>::empty(), Some(t)).len() ==> (#[trigger] retenues(
                notes,
                Seq::<char>::empty(),
                Some(t),
            )[k]).tags.contains(t),
        retenues(notes, Seq::<char>::empty(), Some(t)).len() > 0 <==> tag_present(notes, t),
{
    let r = retenues(notes, Seq::<char>::empty(), Some(t));
    assert forall|k: int| 0 <= k < r.len() implies (#[trigger] r[k]).tags.contains(t) by {
        lemme_retenue(notes, Seq::<char>::empty(), Some(t), r[k]);
        assert(r.contains(r[k]));
    }
    if r.len() > 0 {
        lemme_retenue(notes, Seq::<char>::empty(), Some(t), r[0]);
        assert(r.contains(r[0]));
        let i = choose|i: int| 0 <= i < notes.len() && notes[i] == r[0];
        assert(notes[i].tags.contains(t));
    }
    if tag_present(notes, t) {
        let i = choose|i: int| 0 <= i < notes.len() && (#[trigger] notes[i]).tags.contains(t);
        lemme_retenue(notes, Seq::<char>::empty(), Some(t), notes[i]);
        assert(notes.contains(notes[i]));
        assert(correspond(notes[i], Seq::<char>::empty(), Some(t)));
    }
}

/// Les fiches d'une suite de références à des notes.
pub open spec fn fiches_ref(notes: Seq<&Note>) -> Seq<FicheNote> {
    notes.map_values(|n: &Note| n@)
}

/// Un des tags de l'une des notes.
pub open spec fn tag_present(notes: Seq<FicheNote>, t: Seq<char>) -> bool {
    exists|i: int| 0 <= i < notes.len() && (#[trigger] notes[i]).tags.contains(t)
}

/// L'ensemble des tags des notes.
pub open spec fn ensemble_des_tags(notes: Seq<FicheNote>) -> Set<Seq<char>> {
    Set::new(|t: Seq<char>| tag_present(notes, t))
}

/// Le nombre de tags distincts des notes.
pub open spec fn nombre_de_tags(notes: Seq<FicheNote>) -> nat {
    ensemble_des_tags(notes).len()
}

/// Une suite triée sans doublon des tags des notes en a exactement le nombre.
pub proof fn lemme_nombre_de_tags(notes: Seq<FicheNote>, v: Seq<Seq<char>>)
    requires
        strictement_trie(v),
        forall|t: Seq<char>| #[trigger] v.contains(t) <==> tag_present(notes, t),
    ensures
        v.len() == nombre_de_tags(notes),
{
    assert(v.no_duplicates()) by {
        assert forall|i: int, j: int| 0 <= i < v.len() && 0 <= j < v.len() && i != j implies v[i]
            != v[j] by {
            if v[i] == v[j] {
                if i < j {
                    assert(avant(v[i], v[j]));
                } else {
                    assert(avant(v[j], v[i]));
                }
                loi_avant_irreflexif(v[i]);
            }
        }
    }
    assert(v.to_set() =~= ensemble_des_tags(notes)) by {
        assert forall|t: Seq<char>| v.to_set().contains(t) <==> ensemble_des_tags(notes).contains(t) by {
            assert(v.to_set().contains(t) <==> v.contains(t));
        }
    }
    v.unique_seq_to_set();
}

/// La note `i` est l'une des plus récemment modifiées.
pub open spec fn la_plus_recente(notes: Seq<FicheNote>, i: int) -> bool {
    forall|k: int| 0 <= k < notes.len() ==> !notes[i].modifie_le.anterieur(#[trigger] notes[k].modifie_le)
}

/// Loi : la note la plus récemment modifiée l'est au sens du temps : aucune
/// note n'a une date de modification plus tardive, en secondes puis en
/// nanosecondes.
pub proof fn loi_la_plus_recente(notes: Seq<FicheNote>, i: int)
    requires
        0 <= i < notes.len(),
        la_plus_recente(notes, i),
    ensures
        forall|k: int|
            0 <= k < notes.len() ==> (#[trigger] notes[k]).modifie_le.secondes
                < notes[i].modifie_le.secondes || (notes[k].modifie_le.secondes
                == notes[i].modifie_le.secondes && notes[k].modifie_le.nanos
                <= notes[i].modifie_le.nanos),
{
    assert forall|k: int| 0 <= k < notes.len() implies (#[trigger] notes[k]).modifie_le.secondes
        < notes[i].modifie_le.secondes || (notes[k].modifie_le.secondes
        == notes[i].modifie_le.secondes && notes[k].modifie_le.nanos
        <= notes[i].modifie_le.nanos) by {
        assert(!notes[i].modifie_le.anterieur(notes[k].modifie_le));
        Horodatage::loi_anterieur_chronologique(notes[i].modifie_le, notes[k].modifie_le);
    }
}

/// Dit si `t` est l'un des tags.
fn a_le_tag(tags: &Vec<String>, t: &String) -> (r: bool)
    ensures
        r == vues(tags@).contains(t@),
{
    let n = tags.len();
    let mut i: usize = 0;
    while i < n
        invariant
            n == tags@.len(),
            i <= n,
            forall|k: int| 0 <= k < i ==> vues(tags@)[k] != t@,
        decreases n - i,
    {
        if tags[i] == *t {
            assert(vues(tags@)[i as int] == t@);
            return true;
        }
        i = i + 1;
    }
    false
}

impl AppState {
    /// Dit si une note satisfait les filtres, le filtre texte étant déjà en minuscules.
    fn note_correspond(&self, n: &Note, filtre_min: &String) -> (r: bool)
        requires
            filtre_min@ == en_minuscules(self.filtre@),
            self.filtre@.len() == 0 ==> filtre_min@.len() == 0,
        ensures
            r == correspond(n@, self.filtre@, vue_option(self.tag_filtre)),
    {
        let correspond_texte = filtre_min.as_str().is_empty() || contient(
            minuscules(n.titre.as_str()).as_str(),
            filtre_min.as_str(),
        ) || contient(minuscules(n.contenu.as_str()).as_str(), filtre_min.as_str());
        let correspond_tag = match &self.tag_filtre {
            None => true,
            Some(tag) => a_le_tag(&n.tags, tag),
        };
        correspond_texte && correspond_tag
    }

    /// Retourne les notes correspondant au filtre texte et au filtre tag ;
    /// sans filtre, toutes les notes.
    pub fn notes_filtrees(&self) -> (r: Vec<&Note>)
        ensures
            fiches_ref(r@) == retenues(fiches(self.notes@), self.filtre@, vue_option(self.tag_filtre)),
            self.filtre@.len() == 0 && self.tag_filtre is None ==> fiches_ref(r@) == fiches(
                self.notes@,
            ),
    {
        let filtre_min = minuscules(self.filtre.as_str());
        proof {
            if self.filtre@.len() == 0 && self.tag_filtre is None {
                lemme_sans_filtre(fiches(self.notes@), self.filtre@);
            }
        }
        let mut r: Vec<&Note> = Vec::new();
        let n = self.notes.len();
        let mut i: usize = 0;
        while i < n
            invariant
                n == self.notes@.len(),
                i <= n,
                filtre_min@ == en_minuscules(self.filtre@),
                self.filtre@.len() == 0 ==> filtre_min@.len() == 0,
                fiches_ref(r@) == retenues(
                    fiches(self.notes@).take(i as int),
                    self.filtre@,
                    vue_option(self.tag_filtre),
                ),
            decreases n - i,
        {
            let note = &self.notes[i];
            assert(fiches(self.notes@).take(i + 1).drop_last() =~= fiches(self.notes@).take(i as int));
            if self.note_correspond(note, &filtre_min) {
                r.push(note);
                assert(fiches_ref(r@) =~= retenues(
                    fiches(self.notes@).take(i as int),
                    self.filtre@,
                    vue_option(self.tag_filtre),
                ).push(note@));
            }
            i = i + 1;
        }
        assert(fiches(self.notes@).take(n as int) =~= fiches(self.notes@));
        r
    }

    /// Retourne tous les tags uniques présents dans les notes, dans l'ordre
    /// croissant des chaînes.
    pub fn tous_les_tags(&self) -> (r: Vec<String>)
        ensures
            strictement_trie(vues(r@)),
            forall|t: Seq<char>| #[trigger]
                vues(r@).contains(t) <==> tag_present(fiches(self.notes@), t),
    {
        let mut r: Vec<String> = Vec::new();
        let n = self.notes.len();
        let mut i: usize = 0;
        while i < n
            invariant
                n == self.notes@.len(),
                i <= n,
                strictement_trie(vues(r@)),
                forall|t: Seq<char>| #[trigger]
                    vues(r@).contains(t) <==> tag_present(fiches(self.notes@).take(i as int), t),
            decreases n - i,
        {
            let tags = &self.notes[i].tags;
            let m = tags.len();
            let mut j: usize = 0;
            while j < m
                invariant
                    n == self.notes@.len(),
                    i < n,
                    m == tags@.len(),
                    *tags == self.notes@[i as int].tags,
                    j <= m,
                    strictement_trie(vues(r@)),
                    forall|t: Seq<char>| #[trigger]
                        vues(r@).contains(t) <==> (tag_present(
                            fiches(self.notes@).take(i as int),
                            t,
                        ) || vues(tags@).take(j as int).contains(t)),
                decreases m - j,
            {
                let ghost avant = vues(r@);
                inserer_trie(&mut r, tags[j].clone());
                proof {
                    let pris = vues(tags@).take(j + 1);
                    assert(pris =~= vues(tags@).take(j as int).push(tags@[j as int]@));
                    assert forall|t: Seq<char>| #[trigger] vues(r@).contains(t) <==> (tag_present(
                        fiches(self.notes@).take(i as int),
                        t,
                    ) || pris.contains(t)) by {
                        if pris.contains(t) && t != tags@[j as int]@ {
                            let k = choose|k: int| 0 <= k < pris.len() && pris[k] == t;
                            assert(vues(tags@).take(j as int)[k] == t);
                        }
                        if vues(tags@).take(j as int).contains(t) {
                            let k = choose|k: int| 0 <= k < j && vues(tags@).take(j as int)[k] == t;
                            assert(pris[k] == t);
                        }
                        if t == tags@[j as int]@ {
                            assert(pris[j as int] == t);
                        }
                    }
                }
                j = j + 1;
            }
            proof {
                let f = fiches(self.notes@);
                assert(vues(tags@).take(m as int) =~= vues(tags@));
                assert forall|t: Seq<char>| #[trigger] vues(r@).contains(t) <==> tag_present(
                    f.take(i + 1),
                    t,
                ) by {
                    if tag_present(f.take(i + 1), t) {
                        let k = choose|k: int|
                            0 <= k < f.take(i + 1).len() && (#[trigger] f.take(i + 1)[k]).tags.contains(t);
                        if k < i {
                            assert(f.take(i as int)[k] == f.take(i + 1)[k]);
                        } else {
                            assert(f.take(i + 1)[k].tags == vues(tags@));
                        }
                    }
                    if tag_present(f.take(i as int), t) {
                        let k = choose|k: int|
                            0 <= k < f.take(i as int).len() && (#[trigger] f.take(i as int)[k]).tags.contains(t);
                        assert(f.take(i + 1)[k] == f.take(i as int)[k]);
                    }
                    if vues(tags@).contains(t) {
                        assert(f.take(i + 1)[i as int].tags == vues(tags@));
                    }
                }
            }
            i = i + 1;
        }
        assert(fiches(self.notes@).take(n as int) =~= fiches(self.notes@));
        r
    }

    /// Retourne la date de dernière modification parmi toutes les notes.
    pub fn derniere_modification(&self) -> (r: Option<Horodatage>)
        ensures
            r is None <==> self.notes@.len() == 0,
            r matches Some(h) ==> (exists|i: int|
                0 <= i < self.notes@.len() && self.notes@[i].modifie_le == h) && (forall|i: int|
                0 <= i < self.notes@.len() ==> !h.anterieur(#[trigger] self.notes@[i].modifie_le)),
            r matches Some(h) ==> forall|i: int|
                0 <= i < self.notes@.len() ==> (#[trigger] self.notes@[i]).modifie_le.secondes
                    < h.secondes || (self.notes@[i].modifie_le.secondes == h.secondes
                    && self.notes@[i].modifie_le.nanos <= h.nanos),
    {
        let n = self.notes.len();
        if n == 0 {
            return None;
        }
        let mut m = self.notes[0].modifie_le;
        let mut i: usize = 1;
        while i < n
            invariant
                n == self.notes@.len(),
                1 <= i <= n,
                exists|k: int| 0 <= k < i && self.notes@[k].modifie_le == m,
                forall|k: int| 0 <= k < i ==> !m.anterieur(#[trigger] self.notes@[k].modifie_le),
            decreases n - i,
        {
            let h = self.notes[i].modifie_le;
            if m.est_anterieur(&h) {
                m = h;
            }
            i = i + 1;
        }
        assert forall|i: int| 0 <= i < self.notes@.len() implies (#[trigger] self.notes@[i]).modifie_le.secondes
            < m.secondes || (self.notes@[i].modifie_le.secondes == m.secondes
            && self.notes@[i].modifie_le.nanos <= m.nanos) by {
            assert(!m.anterieur(self.notes@[i].modifie_le));
            Horodatage::loi_anterieur_chronologique(m, self.notes@[i].modifie_le);
        }
        Some(m)
    }
}

} // verus!
