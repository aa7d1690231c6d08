//! La persistance des notes : ce qui, dans les deux backends, décide et
//! calcule. Les lectures et écritures du fichier JSON et de la base SQLite
//! restent à l'application, qui passe ici ce qu'elle a lu et reçoit ce qu'il
//! faut écrire.
use crate::horodatage::{
    lire_rfc3339, rfc3339_ecrit, rfc3339_lu, texte_erreur_date, texte_rfc3339, Horodatage,
};
use crate::identifiant::{lire_identifiant, texte_erreur_uuid, texte_identifiant, texte_uuid, uuid_lu};
use crate::model::{fiche_datee, fiches, FicheNote, Note};
use crate::texte::{jointure, vues};
use std::path::PathBuf;
use vstd::prelude::*;
use vstd::string::*;

verus! {

broadcast use vstd::string::group_string_axioms;

/// `std::path::PathBuf`, que la bibliothèque garde et rend sans le lire.
#[verifier::external_type_specification]
#[verifier::external_body]
pub struct ExPathBuf(PathBuf);

/// Le message d'une note absente : « Note <id> introuvable ».
pub open spec fn message_introuvable(id: u128) -> Seq<char> {
    "Note "@ + texte_uuid(id) + " introuvable"@
}

/// Écrit « Note <id> introuvable ».
pub fn introuvable(id: u128) -> (r: String)
    ensures
        r@ == message_introuvable(id),
{
    let mut r = String::from_str("Note ");
    let t = texte_identifiant(id);
    r.append(t.as_str());
    r.append(" introuvable");
    r
}

/// `prefixe` suivi de `detail`.
pub fn prefixer(prefixe: &str, detail: &str) -> (r: String)
    ensures
        r@ == prefixe@ + detail@,
{
    let mut r = String::from_str(prefixe);
    r.append(detail);
    r
}

// ─── Backend JSON ──────────────────────────────────────────────────────────

/// Les notes sans celles qui portent l'identifiant `id`.
pub open spec fn sans_id(notes: Seq<FicheNote>, id: u128) -> Seq<FicheNote>
    decreases notes.len(),
{
    if notes.len() == 0 {
        Seq::<FicheNote>::empty()
    } else {
        let r = sans_id(notes.drop_last(), id);
        if notes.last().id == id {
            r
        } else {
            r.push(notes.last())
        }
    }
}

/// Une des notes porte l'identifiant `id`.
pub open spec fn contient_id(notes: Seq<FicheNote>, id: u128) -> bool {
    exists|i: int| 0 <= i < notes.len() && (#[trigger] notes[i]).id == id
}

/// La note `i` est la première à porter l'identifiant `id`.
pub open spec fn premiere_avec_id(notes: Seq<FicheNote>, id: u128, i: int) -> bool {
    &&& 0 <= i < notes.len()
    &&& notes[i].id == id
    &&& forall|k: int| 0 <= k < i ==> (#[trigger] notes[k]).id != id
}

proof fn lemme_sans_id_absent(notes: Seq<FicheNote>, id: u128)
    requires
        !contient_id(notes, id),
    ensures
        sans_id(notes, id) == notes,
    decreases notes.len(),
{
    if notes.len() > 0 {
        let n0 = notes.drop_last();
        assert(!contient_id(n0, id)) by {
            if contient_id(n0, id) {
                let k = choose|k: int| 0 <= k < n0.len() && (#[trigger] n0[k]).id == id;
                assert(notes[k].id == id);
            }
        }
        lemme_sans_id_absent(n0, id);
        assert(notes[notes.len() - 1].id != id);
        assert(n0.push(notes.last()) =~= notes);
    }
}

/// Loi : après une suppression, aucune note ne porte plus l'identifiant, et
/// les notes qui restent sont des notes d'avant.
pub proof fn loi_suppression_complete(notes: Seq<FicheNote>, id: u128)
    ensures
        !contient_id(sans_id(notes, id), id),
        forall|i: int|
            0 <= i < sans_id(notes, id).len() ==> notes.contains(#[trigger] sans_id(notes, id)[i]),
    decreases notes.len(),
{
    if notes.len() > 0 {
        let n0 = notes.drop_last();
        loi_suppression_complete(n0, id);
        let r0 = sans_id(n0, id);
        assert forall|i: int|
            0 <= i < sans_id(notes, id).len() implies notes.contains(#[trigger] sans_id(notes, id)[i]) by {
            if i < r0.len() {
                assert(sans_id(notes, id)[i] == r0[i]);
                let k = choose|k: int| 0 <= k < n0.len() && n0[k] == r0[i];
                assert(notes[k] == r0[i]);
            } else {
                assert(sans_id(notes, id)[i] == notes[notes.len() - 1]);
            }
        }
        if contient_id(sans_id(notes, id), id) {
            let k = choose|k: int|
                0 <= k < sans_id(notes, id).len() && (#[trigger] sans_id(notes, id)[k]).id == id;
            if k < r0.len() {
                assert(r0[k] == sans_id(notes, id)[k]);
            }
        }
    }
}

/// Loi : supprimer la note qu'on vient de créer, d'un identifiant que
/// personne ne portait, rend la liste d'avant.
pub proof fn loi_supprimer_apres_creer(notes: Seq<FicheNote>, f: FicheNote)
    requires
        !contient_id(notes, f.id),
    ensures
        sans_id(notes.push(f), f.id) == notes,
{
    assert(notes.push(f).drop_last() =~= notes);
    lemme_sans_id_absent(notes, f.id);
}

/// Persistance dans un fichier JSON qui tient la liste des notes.
pub struct JsonDao {
    chemin: PathBuf,
}

impl JsonDao {
    /// Le fichier qui tient les notes.
    pub closed spec fn emplacement(&self) -> PathBuf {
        self.chemin
    }

    /// Le backend JSON sur le fichier `chemin`.
    pub fn nouveau(chemin: PathBuf) -> (r: JsonDao)
        ensures
            r.emplacement() == chemin,
    {
        JsonDao { chemin }
    }

    /// Le fichier qui tient les notes.
    pub fn chemin(&self) -> (r: &PathBuf)
        ensures
            *r == self.emplacement(),
    {
        &self.chemin
    }

    /// Création : la note s'ajoute à la fin de la liste lue.
    pub fn creer_dans(notes: &mut Vec<Note>, note: &Note)
        ensures
            fiches(final(notes)@) == fiches(old(notes)@).push(note@),
    {
        let ghost avant = notes@;
        notes.push(note.dupliquer());
        assert(fiches(notes@) =~= fiches(avant).push(note@));
    }

    /// Mise à jour : la première note qui porte l'identifiant de `note` est
    /// remplacée par `note` ; s'il n'y en a pas, la liste reste telle quelle et
    /// l'erreur dit la note introuvable.
    pub fn mettre_a_jour_dans(notes: &mut Vec<Note>, note: &Note) -> (r: Result<(), String>)
        ensures
            r is Ok <==> contient_id(fiches(old(notes)@), note.id),
            r matches Ok(_) ==> exists|i: int|
                premiere_avec_id(fiches(old(notes)@), note.id, i) && fiches(final(notes)@) == fiches(
                    old(notes)@,
                ).update(i, note@),
            r matches Err(e) ==> e@ == message_introuvable(note.id) && final(notes)@ == old(notes)@,
    {
        let n = notes.len();
        let mut i: usize = 0;
        while i < n
            invariant
                n == notes@.len(),
                notes@ == old(notes)@,
                i <= n,
                forall|k: int| 0 <= k < i ==> (#[trigger] fiches(notes@)[k]).id != note.id,
            decreases n - i,
        {
            if notes[i].id == note.id {
                let ghost avant = notes@;
                assert(premiere_avec_id(fiches(avant), note.id, i as int));
                assert(fiches(avant)[i as int].id == note.id);
                notes.set(i, note.dupliquer());
                assert(fiches(notes@) =~= fiches(avant).update(i as int, note@));
                return Ok(());
            }
            i = i + 1;
        }
        Err(introuvable(note.id))
    }

    /// Suppression : toutes les notes qui portent `id` sont retirées ; s'il
    /// n'y en avait aucune, l'erreur dit la note introuvable.
    pub fn supprimer_dans(notes: &mut Vec<Note>, id: u128) -> (r: Result<(), String>)
        ensures
            fiches(final(notes)@) == sans_id(fiches(old(notes)@), id),
            r is Ok <==> contient_id(fiches(old(notes)@), id),
            r matches Err(e) ==> e@ == message_introuvable(id),
    {
        if !retirer_id(notes, id) {
            return Err(introuvable(id));
        }
        Ok(())
    }
}

/// Retire toutes les notes qui portent `id` ; dit s'il y en avait.
pub fn retirer_id(notes: &mut Vec<Note>, id: u128) -> (trouve: bool)
    ensures
        fiches(final(notes)@) == sans_id(fiches(old(notes)@), id),
        trouve == contient_id(fiches(old(notes)@), id),
{
    let ghost avant = fiches(notes@);
    let mut garde: Vec<Note> = Vec::new();
    let n = notes.len();
    let mut i: usize = 0;
    let mut trouve = false;
    while i < n
        invariant
            n == notes@.len(),
            avant == fiches(notes@),
            i <= n,
            fiches(garde@) == sans_id(avant.take(i as int), id),
            trouve <==> contient_id(avant.take(i as int), id),
        decreases n - i,
    {
        assert(avant.take(i + 1).drop_last() =~= avant.take(i as int));
        if notes[i].id == id {
            trouve = true;
            assert(avant.take(i + 1)[i as int].id == id);
        } else {
            let ghost g = garde@;
            garde.push(notes[i].dupliquer());
            assert(fiches(garde@) =~= fiches(g).push(avant[i as int]));
        }
        assert(contient_id(avant.take(i + 1), id) <==> (contient_id(avant.take(i as int), id)
            || avant[i as int].id == id)) by {
            if contient_id(avant.take(i + 1), id) {
                let k = choose|k: int| 0 <= k < i + 1 && (#[trigger] avant.take(i + 1)[k]).id == id;
                if k < i {
                    assert(avant.take(i as int)[k].id == id);
                }
            }
            if contient_id(avant.take(i as int), id) {
                let k = choose|k: int| 0 <= k < i && (#[trigger] avant.take(i as int)[k]).id == id;
                assert(avant.take(i + 1)[k].id == id);
            }
        }
        i = i + 1;
    }
    assert(avant.take(n as int) =~= avant);
    *notes = garde;
    trouve
}

// ─── Tags en JSON ──────────────────────────────────────────────────────────

/// L'échappement JSON d'un caractère, tel que l'écrit `serde_json` : les
/// guillemets, la barre oblique inverse et les caractères de contrôle.
pub open spec fn echappe(c: char) -> Seq<char> {
    let n = c as u32;
    if c == '"' {
        seq!['\\', '"']
    } else if c == '\\' {
        seq!['\\', '\\']
    } else if n == 0x08 {
        seq!['\\', 'b']
    } else if n == 0x09 {
        seq!['\\', 't']
    } else if n == 0x0A {
        seq!['\\', 'n']
    } else if n == 0x0C {
        seq!['\\', 'f']
    } else if n == 0x0D {
        seq!['\\', 'r']
    } else if n < 0x20 {
        seq![
            '\\',
            'u',
            '0',
            '0',
            if n < 0x10 { '0' } else { '1' },
            crate::identifiant::chiffre_hexa((n % 16) as int),
        ]
    } else {
        seq![c]
    }
}

/// Les caractères de `s`, chacun échappé.
pub open spec fn echapper(s: Seq<char>) -> Seq<char>
    decreases s.len(),
{
    if s.len() == 0 {
        Seq::<char>::empty()
    } else {
        echapper(s.drop_last()) + echappe(s.last())
    }
}

/// Une chaîne JSON : l'échappement entre guillemets.
pub open spec fn chaine_json(s: Seq<char>) -> Seq<char> {
    seq!['"'] + echapper(s) + seq!['"']
}

/// Le tableau JSON compact des chaînes, tel que `serde_json::to_string` l'écrit
/// d'un `Vec<String>`.
pub open spec fn tableau_json(tags: Seq<Seq<char>>) -> Seq<char> {
    seq!['['] + jointure(tags.map_values(|t: Seq<char>| chaine_json(t)), seq![',']) + seq![']']
}

/// `serde_json::Error`, l'erreur de `serde_json`, que la bibliothèque ne lit pas.
#[verifier::external_type_specification]
#[verifier::external_body]
pub struct ExErreurJson(serde_json::Error);

/// Appelle `serde_json::to_string` sur les tags. La source de `serde_json`
/// écrit un tableau compact de chaînes, échappées comme le dit `echappe`, et
/// n'échoue que si une implémentation de `Serialize` échoue ou pour une table
/// à clés non textuelles, ce qui n'est pas le cas d'un `Vec<String>`.
#[verifier::external_body]
fn tags_en_json(tags: &Vec<String>) -> (r: Result<String, serde_json::Error>)
    ensures
        r is Ok,
        r matches Ok(s) ==> s@ == tableau_json(vues(tags@)),
{
    serde_json::to_string(tags)
}

/// Les tags que `serde_json::from_str::<Vec<String>>` lit dans un texte, ou
/// `None` s'il le refuse.
pub uninterp spec fn tags_json_lus(s: Seq<char>) -> Option<Seq<Seq<char>>>;

/// Les tags d'une lecture réussie.
pub open spec fn tags_lus(r: Result<Vec<String>, serde_json::Error>) -> Option<Seq<Seq<char>>> {
    match r {
        Ok(v) => Some(vues(v@)),
        Err(_) => None,
    }
}

/// Appelle `serde_json::from_str::<Vec<String>>`. Le contrat nomme les tags
/// lus (`tags_json_lus`) et dit que le tableau que `serde_json` écrit de tags
/// se relit en ces mêmes tags ; ce que le lecteur accepte d'autre n'est pas décrit.
#[verifier::external_body]
fn tags_depuis_json(s: &str) -> (r: Result<Vec<String>, serde_json::Error>)
    ensures
        tags_lus(r) == tags_json_lus(s@),
        forall|t: Seq<Seq<char>>| s@ == #[trigger] tableau_json(t) ==> tags_lus(r) == Some(t),
{
    serde_json::from_str(s)
}

/// Appelle l'affichage (`Display`) de `serde_json::Error`. Le texte dépend du
/// détail de l'erreur, que la bibliothèque ne voit pas : rien n'en est dit.
#[verifier::external_body]
pub(crate) fn texte_erreur_json(e: &serde_json::Error) -> (r: String) {
    e.to_string()
}


// ─── Backend SQLite ────────────────────────────────────────────────────────

/// Une ligne de la table `notes`, colonne par colonne, en texte.
pub struct LigneNote {
    pub id: String,
    pub titre: String,
    pub contenu: String,
    pub tags: String,
    pub cree_le: String,
    pub modifie_le: String,
}

/// Les colonnes d'une ligne, vues comme des suites de caractères.
pub struct LigneVue {
    pub id: Seq<char>,
    pub titre: Seq<char>,
    pub contenu: Seq<char>,
    pub tags: Seq<char>,
    pub cree_le: Seq<char>,
    pub modifie_le: Seq<char>,
}

impl View for LigneNote {
    type V = LigneVue;

    open spec fn view(&self) -> LigneVue {
        LigneVue {
            id: self.id@,
            titre: self.titre@,
            contenu: self.contenu@,
            tags: self.tags@,
            cree_le: self.cree_le@,
            modifie_le: self.modifie_le@,
        }
    }
}

/// La ligne qu'on écrit d'une note : l'identifiant en texte, les tags en JSON,
/// les instants en RFC 3339.
pub open spec fn ligne_de(f: FicheNote) -> LigneVue {
    LigneVue {
        id: texte_uuid(f.id),
        titre: f.titre,
        contenu: f.contenu,
        tags: tableau_json(f.tags),
        cree_le: rfc3339_ecrit(f.cree_le.secondes, f.cree_le.nanos),
        modifie_le: rfc3339_ecrit(f.modifie_le.secondes, f.modifie_le.nanos),
    }
}

/// L'instant lu dans un texte RFC 3339.
pub open spec fn horodatage_lu(s: Seq<char>) -> Option<Horodatage> {
    match rfc3339_lu(s) {
        Some((secondes, nanos)) => Some(Horodatage { secondes, nanos }),
        None => None,
    }
}

/// La note qu'on lit d'une ligne, si chaque colonne se lit.
pub open spec fn lecture_ligne(l: LigneVue) -> Option<FicheNote> {
    match (uuid_lu(l.id), tags_json_lus(l.tags), horodatage_lu(l.cree_le), horodatage_lu(
        l.modifie_le,
    )) {
        (Some(id), Some(tags), Some(cree_le), Some(modifie_le)) => Some(
            FicheNote { id, titre: l.titre, contenu: l.contenu, tags, cree_le, modifie_le },
        ),
        _ => None,
    }
}

/// `e` commence par `prefixe`.
pub open spec fn commence_par(e: Seq<char>, prefixe: Seq<char>) -> bool {
    exists|d: Seq<char>| e == prefixe + d
}

/// Le message d'une ligne illisible nomme la première colonne qui ne se lit pas.
pub open spec fn erreur_de_lecture(l: LigneVue, e: Seq<char>) -> bool {
    if uuid_lu(l.id) is None {
        commence_par(e, "UUID invalide : "@)
    } else if tags_json_lus(l.tags) is None {
        commence_par(e, "Tags JSON invalides : "@)
    } else if horodatage_lu(l.cree_le) is None {
        commence_par(e, "Date cree_le invalide : "@)
    } else {
        commence_par(e, "Date modifie_le invalide : "@)
    }
}

/// La vue d'une ligne telle que la base l'a rendue, ou de son erreur.
pub open spec fn vue_rendue(r: Result<LigneNote, String>) -> Result<LigneVue, Seq<char>> {
    match r {
        Ok(l) => Ok(l@),
        Err(e) => Err(e@),
    }
}

/// La ligne rendue est celle qu'`encoder_note` écrit de la fiche `f`, datée.
pub open spec fn ecrite_de(r: Result<LigneVue, Seq<char>>, f: FicheNote) -> bool {
    fiche_datee(f) && r == Ok::<LigneVue, Seq<char>>(ligne_de(f))
}

/// Les lignes rendues sont, dans l'ordre, celles écrites des fiches `fs`.
pub open spec fn lignes_ecrites_de(lignes: Seq<Result<LigneNote, String>>, fs: Seq<FicheNote>) -> bool {
    &&& fs.len() == lignes.len()
    &&& forall|i: int| 0 <= i < lignes.len() ==> ecrite_de(vue_rendue(#[trigger] lignes[i]), fs[i])
}

/// La ligne rendue se lit en une note.
pub open spec fn lisible(r: Result<LigneVue, Seq<char>>) -> bool {
    r matches Ok(l) && lecture_ligne(l) is Some
}

/// Le message d'une ligne rendue qui ne se lit pas.
pub open spec fn erreur_de_ligne(r: Result<LigneVue, Seq<char>>, e: Seq<char>) -> bool {
    match r {
        Ok(l) => erreur_de_lecture(l, e),
        Err(m) => e == "Ligne invalide : "@ + m,
    }
}

/// Persistance dans une base SQLite, table `notes`.
pub struct SqliteDao {
    chemin: PathBuf,
}

impl SqliteDao {
    /// Le fichier de la base.
    pub closed spec fn emplacement(&self) -> PathBuf {
        self.chemin
    }

    /// Le backend SQLite sur `chemin`, une fois la table créée : `schema` est
    /// ce qu'a donné la création de la table ; son erreur est celle du backend.
    pub fn nouveau(chemin: PathBuf, schema: Result<(), String>) -> (r: Result<SqliteDao, String>)
        ensures
            r is Ok <==> schema is Ok,
            r matches Ok(d) ==> d.emplacement() == chemin,
            r matches Err(e) ==> schema == Err::<(), String>(e),
    {
        match schema {
            Ok(()) => Ok(SqliteDao { chemin }),
            Err(e) => Err(e),
        }
    }

    /// Le fichier de la base.
    pub fn chemin(&self) -> (r: &PathBuf)
        ensures
            *r == self.emplacement(),
    {
        &self.chemin
    }

    /// La clé d'une note dans la table : son identifiant en texte.
    pub fn cle_de(id: u128) -> (r: String)
        ensures
            r@ == texte_uuid(id),
    {
        texte_identifiant(id)
    }

    /// La ligne à écrire pour une note (insertion ou mise à jour).
    pub fn encoder_note(note: &Note) -> (r: Result<LigneNote, String>)
        requires
            fiche_datee(note@),
        ensures
            r is Ok,
            r matches Ok(l) ==> l@ == ligne_de(note@),
    {
        let tags = match tags_en_json(&note.tags) {
            Ok(t) => t,
            Err(e) => {
                return Err(prefixer("Sérialisation tags : ", texte_erreur_json(&e).as_str()));
            },
        };
        Ok(
            LigneNote {
                id: texte_identifiant(note.id),
                titre: note.titre.clone(),
                contenu: note.contenu.clone(),
                tags,
                cree_le: texte_rfc3339(note.cree_le),
                modifie_le: texte_rfc3339(note.modifie_le),
            },
        )
    }

    /// La note d'une ligne lue. Une colonne qui ne se lit pas donne une erreur
    /// qui la nomme ; une ligne écrite par `encoder_note` se relit en cette même
    /// note.
    pub fn decoder_ligne(ligne: &LigneNote) -> (r: Result<Note, String>)
        ensures
            r is Ok <==> lecture_ligne(ligne@) is Some,
            r matches Ok(n) ==> lecture_ligne(ligne@) == Some(n@) && fiche_datee(n@),
            r matches Err(e) ==> erreur_de_lecture(ligne@, e@),
            forall|f: FicheNote|
                ligne@ == #[trigger] ligne_de(f) && fiche_datee(f) ==> (r matches Ok(n) && n@ == f),
    {
        let id = match lire_identifiant(ligne.id.as_str()) {
            Ok(v) => v,
            Err(e) => {
                let m = prefixer("UUID invalide : ", texte_erreur_uuid(&e).as_str());
                proof {
                    reveal_strlit("UUID invalide : ");
                }
                return Err(m);
            },
        };
        let tags = match tags_depuis_json(ligne.tags.as_str()) {
            Ok(t) => t,
            Err(e) => {
                let m = prefixer("Tags JSON invalides : ", texte_erreur_json(&e).as_str());
                return Err(m);
            },
        };
        let cree_le = match lire_rfc3339(ligne.cree_le.as_str()) {
            Ok(h) => h,
            Err(e) => {
                let m = prefixer("Date cree_le invalide : ", texte_erreur_date(&e).as_str());
                return Err(m);
            },
        };
        let modifie_le = match lire_rfc3339(ligne.modifie_le.as_str()) {
            Ok(h) => h,
            Err(e) => {
                let m = prefixer("Date modifie_le invalide : ", texte_erreur_date(&e).as_str());
                return Err(m);
            },
        };
        let n = Note {
            id,
            titre: ligne.titre.clone(),
            contenu: ligne.contenu.clone(),
            tags,
            cree_le,
            modifie_le,
        };
        Ok(n)
    }

    /// Les notes des lignes que la base a rendues, dans leur ordre ; la
    /// première ligne en erreur ou illisible arrête la lecture. Des lignes
    /// écrites par `encoder_note` se relisent en ces mêmes notes.
    pub fn decoder_lignes(lignes: &Vec<Result<LigneNote, String>>) -> (r: Result<Vec<Note>, String>)
        ensures
            r is Ok <==> forall|i: int|
                0 <= i < lignes@.len() ==> lisible(vue_rendue(#[trigger] lignes@[i])),
            r matches Ok(v) ==> v@.len() == lignes@.len() && forall|i: int|
                0 <= i < lignes@.len() ==> lecture_ligne(
                    (#[trigger] vue_rendue(lignes@[i]))->Ok_0,
                ) == Some(v@[i]@),
            r matches Err(e) ==> exists|k: int|
                0 <= k < lignes@.len() && (forall|i: int|
                    0 <= i < k ==> lisible(vue_rendue(#[trigger] lignes@[i])))
                    && !lisible(vue_rendue(lignes@[k])) && erreur_de_ligne(
                    vue_rendue(lignes@[k]),
                    e@,
                ),
            forall|fs: Seq<FicheNote>|
                #[trigger] lignes_ecrites_de(lignes@, fs) ==> (r matches Ok(v) && fiches(v@) == fs),
    {
        let mut v: Vec<Note> = Vec::new();
        let n = lignes.len();
        let mut i: usize = 0;
        while i < n
            invariant
                n == lignes@.len(),
                i <= n,
                v@.len() == i,
                forall|k: int| 0 <= k < i ==> lisible(vue_rendue(#[trigger] lignes@[k])),
                forall|k: int|
                    0 <= k < i ==> lecture_ligne((#[trigger] vue_rendue(lignes@[k]))->Ok_0) == Some(
                        v@[k]@,
                    ),
                forall|fs: Seq<FicheNote>|
                    #[trigger] lignes_ecrites_de(lignes@, fs) ==> fiches(v@) == fs.take(i as int),
            decreases n - i,
        {
            match &lignes[i] {
                Ok(ligne) => {
                    match Self::decoder_ligne(ligne) {
                        Ok(note) => {
                            let ghost avant = v@;
                            v.push(note);
                            assert forall|fs: Seq<FicheNote>|
                                #[trigger] lignes_ecrites_de(lignes@, fs) implies fiches(v@) == fs.take(
                                i + 1,
                            ) by {
                                assert(ecrite_de(vue_rendue(lignes@[i as int]), fs[i as int]));
                                assert(fiches(v@) =~= fiches(avant).push(note@));
                                assert(fs.take(i + 1) =~= fs.take(i as int).push(fs[i as int]));
                            }
                        },
                        Err(e) => {
                            assert(!lisible(vue_rendue(lignes@[i as int])));
                            assert forall|fs: Seq<FicheNote>| !#[trigger] lignes_ecrites_de(lignes@, fs) by {
                                if lignes_ecrites_de(lignes@, fs) {
                                    assert(ecrite_de(vue_rendue(lignes@[i as int]), fs[i as int]));
                                }
                            }
                            return Err(e);
                        },
                    }
                },
                Err(e) => {
                    let m = prefixer("Ligne invalide : ", e.as_str());
                    proof {
                        reveal_strlit("Ligne invalide : ");
                    }
                    assert(!lisible(vue_rendue(lignes@[i as int])));
                    assert forall|fs: Seq<FicheNote>| !#[trigger] lignes_ecrites_de(lignes@, fs) by {
                        if lignes_ecrites_de(lignes@, fs) {
                            assert(ecrite_de(vue_rendue(lignes@[i as int]), fs[i as int]));
                        }
                    }
                    return Err(m);
                },
            }
            i = i + 1;
        }
        assert forall|fs: Seq<FicheNote>| #[trigger] lignes_ecrites_de(lignes@, fs) implies fiches(v@)
            == fs by {
            assert(fs.take(n as int) =~= fs);
        }
        Ok(v)
    }

    /// Une mise à jour ou une suppression qui n'a touché aucune ligne dit la
    /// note introuvable.
    pub fn verifier_modification(modifies: usize, id: u128) -> (r: Result<(), String>)
        ensures
            r is Ok <==> modifies != 0,
            r matches Err(e) ==> e@ == message_introuvable(id),
    {
        if modifies == 0 {
            return Err(introuvable(id));
        }
        Ok(())
    }
}

} // verus!
