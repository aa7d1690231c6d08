//! L'import de notes depuis l'API REST : ce que la bibliothèque fait des
//! publications reçues. La requête HTTP elle-même revient à l'application.
use crate::horodatage::maintenant;
use crate::identifiant::{identifiant_libre, nouvel_identifiant, uuid_v4};
use crate::model::Note;
use crate::texte::{decimal, ecrire_decimal, vues};
use vstd::prelude::*;
use vstd::string::*;

verus! {

broadcast use vstd::string::group_string_axioms;

/// Au plus ce nombre de publications devient des notes, pour ne pas
/// surcharger l'interface.
pub const LIMITE_IMPORT: usize = 20;

/// Une publication de l'API JSONPlaceholder.
pub struct Publication {
    pub id: u32,
    pub title: String,
    pub body: String,
}

/// Le titre d'une note importée : « [<id>] <titre> ».
pub open spec fn titre_importe(id: u32, titre: Seq<char>) -> Seq<char> {
    "["@ + decimal(id as nat) + "] "@ + titre
}

/// Écrit « [<id>] <titre> ».
pub fn formater_titre(id: u32, titre: &str) -> (r: String)
    ensures
        r@ == titre_importe(id, titre@),
{
    let mut r = String::from_str("[");
    ecrire_decimal(&mut r, id);
    r.append("] ");
    r.append(titre);
    r
}

/// La note `n` vient de la publication `p` : titre « [id] titre », contenu
/// repris, un seul tag « import », datée de sa création.
pub open spec fn importee_de(n: Note, p: Publication) -> bool {
    &&& n.titre@ == titre_importe(p.id, p.title@)
    &&& n.contenu@ == p.body@
    &&& vues(n.tags@) == seq!["import"@]
    &&& n.cree_le == n.modifie_le
    &&& n.cree_le.valide()
    &&& uuid_v4(n.id)
}

/// Les notes ont deux à deux des identifiants distincts.
pub open spec fn identifiants_distincts(notes: Seq<Note>) -> bool {
    forall|i: int, j: int| 0 <= i < j < notes.len() ==> #[trigger] notes[i].id != #[trigger] notes[j].id
}

/// Les notes tirées des publications reçues : les vingt premières au plus,
/// dans l'ordre. Chaque note reçoit son propre identifiant tiré au hasard ;
/// si un tirage retombait sur l'identifiant d'une note déjà importée, un
/// identifiant de réserve libre le remplacerait : les identifiants sont
/// toujours distincts.
pub fn notes_depuis_publications(posts: &Vec<Publication>) -> (r: Vec<Note>)
    ensures
        r@.len() == if posts@.len() < LIMITE_IMPORT { posts@.len() } else { LIMITE_IMPORT as nat },
        forall|i: int| 0 <= i < r@.len() ==> importee_de(#[trigger] r@[i], posts@[i]),
        identifiants_distincts(r@),
{
    let n = if posts.len() < LIMITE_IMPORT {
        posts.len()
    } else {
        LIMITE_IMPORT
    };
    let mut r: Vec<Note> = Vec::new();
    let mut pris: Vec<u128> = Vec::new();
    let mut i: usize = 0;
    while i < n
        invariant
            pris@.len() == i,
            forall|k: int| 0 <= k < i ==> #[trigger] pris@[k] == r@[k].id,
            identifiants_distincts(r@),
            n <= posts@.len(),
            n == if posts@.len() < LIMITE_IMPORT { posts@.len() } else { LIMITE_IMPORT as nat },
            i <= n,
            r@.len() == i,
            forall|k: int| 0 <= k < i ==> importee_de(#[trigger] r@[k], posts@[k]),
        decreases n - i,
    {
        let p = &posts[i];
        let mut tags: Vec<String> = Vec::new();
        tags.push(String::from_str("import"));
        assert(vues(tags@) =~= seq!["import"@]);
        let id = identifiant_libre(nouvel_identifiant(), &pris);
        let note = Note::datee(
            id,
            maintenant(),
            formater_titre(p.id, p.title.as_str()),
            p.body.clone(),
            tags,
        );
        let ghost avant = r@;
        r.push(note);
        pris.push(id);
        assert forall|a: int, b: int| 0 <= a < b < r@.len() implies #[trigger] r@[a].id
            != #[trigger] r@[b].id by {
            if b == i {
                assert(pris@[a] == r@[a].id);
                assert(!pris@.drop_last().contains(id));
                assert(pris@.drop_last()[a] == pris@[a]);
            } else {
                assert(r@[a] == avant[a]);
                assert(r@[b] == avant[b]);
            }
        }
        i = i + 1;
    }
    r
}

} // verus!
