//! L'état de l'application et ses décisions : ce que font la création, la
//! sauvegarde, la suppression, la sélection d'une note, le changement de
//! backend, l'import REST et l'export, une fois connu ce qu'ont répondu la
//! persistance, le réseau ou le disque. L'application appelle ces fonctions
//! autour de chaque entrée-sortie.
use crate::horodatage::{date_courte, date_compacte, formater_date_compacte, formater_date_courte, maintenant, Horodatage};
use crate::identifiant::uuid_v4;
use crate::model::{fiches, notes_datees, AppState, Backend, Note};
use crate::dao::{prefixer, retirer_id, sans_id};
use crate::texte::{analyse_tags, analyser_tags, joindre, jointure, vues};
use vstd::prelude::*;
use vstd::string::*;

verus! {

broadcast use vstd::string::group_string_axioms;

/// Ce que l'application a reçu du canal de l'import REST.
pub enum Reception {
    /// Rien pour l'instant.
    Rien,
    /// Le canal a été fermé sans réponse.
    Deconnecte,
    /// Le résultat de l'import.
    Recu(Result<Vec<Note>, String>),
}

/// Ce qu'a donné l'écriture du fichier d'export.
pub enum ResultatExport {
    /// Le fichier est écrit ; le chemin tel qu'on l'affiche.
    Ecrit(String),
    /// L'écriture du fichier a échoué ; le message de l'erreur.
    EchecEcriture(String),
    /// La mise en JSON des notes a échoué ; le message de l'erreur.
    EchecSerialisation(String),
}

/// Les chiffres du tableau de bord.
pub struct TableauDeBord {
    pub total: usize,
    pub nb_tags: usize,
    pub derniere: String,
}

/// L'état de l'application principale.
pub struct NotesApp {
    pub state: AppState,
    pub backend: Backend,
    pub selected_note: Option<u128>,
    pub erreur: Option<String>,
    /// Un import REST est en cours (l'application tient son canal).
    pub import_en_cours: bool,
    pub theme_sombre: bool,
    pub edit_titre: String,
    pub edit_contenu: String,
    pub edit_tags: String,
    pub afficher_dashboard: bool,
    pub export_statut: Option<String>,
}

/// La vue d'un message facultatif.
pub open spec fn vue_message(m: Option<String>) -> Option<Seq<char>> {
    match m {
        Some(s) => Some(s@),
        None => None,
    }
}

/// La première note qui porte l'identifiant `id`.
pub open spec fn trouvee_en(notes: Seq<Note>, id: u128, i: int) -> bool {
    &&& 0 <= i < notes.len()
    &&& notes[i].id == id
    &&& forall|k: int| 0 <= k < i ==> (#[trigger] notes[k]).id != id
}

/// Aucune note ne porte l'identifiant `id`.
pub open spec fn absente(notes: Seq<Note>, id: u128) -> bool {
    forall|k: int| 0 <= k < notes.len() ==> (#[trigger] notes[k]).id != id
}

/// Cherche la première note qui porte `id`.
fn chercher(notes: &Vec<Note>, id: u128) -> (r: Option<usize>)
    ensures
        r matches Some(i) ==> trouvee_en(notes@, id, i as int),
        r is None ==> absente(notes@, id),
{
    let n = notes.len();
    let mut i: usize = 0;
    while i < n
        invariant
            n == notes@.len(),
            i <= n,
            forall|k: int| 0 <= k < i ==> (#[trigger] notes@[k]).id != id,
        decreases n - i,
    {
        if notes[i].id == id {
            return Some(i);
        }
        i = i + 1;
    }
    None
}

impl NotesApp {
    /// Mêmes notes.
    pub open spec fn memes_notes(self, autre: NotesApp) -> bool {
        self.state.notes == autre.state.notes
    }

    /// Mêmes filtres (texte et tag).
    pub open spec fn memes_filtres(self, autre: NotesApp) -> bool {
        &&& self.state.filtre == autre.state.filtre
        &&& self.state.tag_filtre == autre.state.tag_filtre
    }

    /// Même sélection et mêmes champs d'édition.
    pub open spec fn meme_edition(self, autre: NotesApp) -> bool {
        &&& self.selected_note == autre.selected_note
        &&& self.edit_titre == autre.edit_titre
        &&& self.edit_contenu == autre.edit_contenu
        &&& self.edit_tags == autre.edit_tags
    }

    /// Même thème, même tableau de bord, même statut d'export, même import en cours.
    pub open spec fn meme_affichage(self, autre: NotesApp) -> bool {
        &&& self.theme_sombre == autre.theme_sombre
        &&& self.afficher_dashboard == autre.afficher_dashboard
        &&& self.export_statut == autre.export_statut
        &&& self.import_en_cours == autre.import_en_cours
    }

    /// L'état de départ : aucune note encore, backend JSON, rien de
    /// sélectionné, thème clair. L'application charge ensuite les notes
    /// (`charger_notes`).
    pub fn nouveau() -> (r: NotesApp)
        ensures
            r.state.notes@.len() == 0,
            r.state.filtre@.len() == 0,
            r.state.tag_filtre is None,
            r.backend == Backend::Json,
            r.selected_note is None,
            r.erreur is None,
            !r.import_en_cours,
            !r.theme_sombre,
            r.edit_titre@.len() == 0,
            r.edit_contenu@.len() == 0,
            r.edit_tags@.len() == 0,
            !r.afficher_dashboard,
            r.export_statut is None,
    {
        NotesApp {
            state: AppState::default(),
            backend: Backend::Json,
            selected_note: None,
            erreur: None,
            import_en_cours: false,
            theme_sombre: false,
            edit_titre: String::new(),
            edit_contenu: String::new(),
            edit_tags: String::new(),
            afficher_dashboard: false,
            export_statut: None,
        }
    }

    /// Ce que la lecture des notes par le backend a donné : les notes
    /// remplacent celles de l'état, ou l'erreur est retenue.
    pub fn charger_notes(&mut self, resultat: Result<Vec<Note>, String>)
        ensures
            match resultat {
                Ok(v) => final(self).state.notes == v && final(self).erreur == old(self).erreur,
                Err(e) => final(self).erreur == Some(e) && final(self).memes_notes(*old(self)),
            },
            final(self).memes_filtres(*old(self)),
            final(self).meme_edition(*old(self)),
            final(self).meme_affichage(*old(self)),
            final(self).backend == old(self).backend,
    {
        match resultat {
            Ok(notes) => self.state.notes = notes,
            Err(e) => self.erreur = Some(e),
        }
    }

    /// La note que crée le bouton « Nouvelle note » : titre « Nouvelle note »,
    /// contenu et tags vides. L'application la confie au backend puis appelle
    /// `terminer_nouvelle_note`.
    pub fn preparer_nouvelle_note() -> (r: Note)
        ensures
            r.titre@ == "Nouvelle note"@,
            r.contenu@.len() == 0,
            r.tags@.len() == 0,
            r.cree_le == r.modifie_le,
            r.cree_le.valide(),
            r.cree_le.nanos < 1_000_000_000,
            uuid_v4(r.id),
    {
        proof {
            reveal_strlit("");
        }
        Note::nouveau(String::from_str("Nouvelle note"), String::from_str(""), Vec::new())
    }

    /// La création par le backend a réussi : la note s'ajoute à l'état, est
    /// sélectionnée et ouverte à l'édition, l'erreur s'efface. Sinon l'erreur
    /// est retenue et rien d'autre ne change.
    pub fn terminer_nouvelle_note(&mut self, note: Note, resultat: Result<(), String>)
        ensures
            match resultat {
                Ok(_) => {
                    &&& fiches(final(self).state.notes@) == fiches(old(self).state.notes@).push(note@)
                    &&& final(self).selected_note == Some(note.id)
                    &&& final(self).edit_titre@ == note.titre@
                    &&& final(self).edit_contenu@ == note.contenu@
                    &&& final(self).edit_tags@.len() == 0
                    &&& final(self).erreur is None
                },
                Err(e) => {
                    &&& final(self).erreur == Some(e)
                    &&& final(self).memes_notes(*old(self))
                    &&& final(self).meme_edition(*old(self))
                },
            },
            final(self).memes_filtres(*old(self)),
            final(self).meme_affichage(*old(self)),
            final(self).backend == old(self).backend,
    {
        match resultat {
            Ok(()) => {
                self.selected_note = Some(note.id);
                self.edit_titre = note.titre.clone();
                self.edit_contenu = note.contenu.clone();
                self.edit_tags = String::new();
                let ghost avant = self.state.notes@;
                self.state.notes.push(note);
                assert(fiches(self.state.notes@) =~= fiches(avant).push(note@));
                self.erreur = None;
            },
            Err(e) => self.erreur = Some(e),
        }
    }

    /// Ce que fait la préparation d'une sauvegarde, la date de modification
    /// mise à part : si la note sélectionnée est dans l'état (en `i`), elle
    /// prend le titre, le contenu et les tags saisis, garde son identifiant et
    /// sa date de création, et sa copie est rendue ; sinon rien ne change et
    /// rien n'est rendu. Sélection, saisie, filtres, affichage, backend et
    /// erreur restent.
    pub open spec fn sauvegarde_preparee(self, avant: NotesApp, r: Option<Note>) -> bool {
        &&& match avant.selected_note {
            None => r is None && self.state.notes == avant.state.notes,
            Some(id) => {
                ||| (r is None && absente(avant.state.notes@, id) && self.state.notes
                    == avant.state.notes)
                ||| exists|i: int|
                    {
                        &&& trouvee_en(avant.state.notes@, id, i)
                        &&& r matches Some(n) && {
                            &&& n.id == id
                            &&& n.titre@ == avant.edit_titre@
                            &&& n.contenu@ == avant.edit_contenu@
                            &&& vues(n.tags@) == analyse_tags(avant.edit_tags@)
                            &&& n.cree_le == avant.state.notes@[i].cree_le
                            &&& fiches(self.state.notes@) == fiches(avant.state.notes@).update(
                                i,
                                n@,
                            )
                        }
                    }
            },
        }
        &&& (avant.selected_note matches Some(id) && !absente(avant.state.notes@, id) ==> r is Some)
        &&& self.meme_edition(avant)
        &&& self.memes_filtres(avant)
        &&& self.meme_affichage(avant)
        &&& self.backend == avant.backend
        &&& self.erreur == avant.erreur
    }

    /// Sauvegarde de la note sélectionnée à l'instant `instant` (voir
    /// `sauvegarde_preparee`) : la note prend `instant` pour date de
    /// modification ; la copie rendue est à confier au backend, dont la
    /// réponse va à `terminer_operation`.
    pub fn preparer_sauvegarde_a(&mut self, instant: Horodatage) -> (r: Option<Note>)
        ensures
            final(self).sauvegarde_preparee(*old(self), r),
            r matches Some(n) ==> n.modifie_le == instant,
    {
        let id = match self.selected_note {
            Some(id) => id,
            None => return None,
        };
        let tags = analyser_tags(self.edit_tags.as_str());
        match chercher(&self.state.notes, id) {
            None => None,
            Some(i) => {
                let ancienne = &self.state.notes[i];
                let note = Note {
                    id: ancienne.id,
                    titre: self.edit_titre.clone(),
                    contenu: self.edit_contenu.clone(),
                    tags,
                    cree_le: ancienne.cree_le,
                    modifie_le: instant,
                };
                let copie = note.dupliquer();
                let ghost avant = self.state.notes@;
                self.state.notes.set(i, note);
                assert(fiches(self.state.notes@) =~= fiches(avant).update(i as int, copie@));
                Some(copie)
            },
        }
    }

    /// Sauvegarde de la note sélectionnée, datée de maintenant (voir
    /// `preparer_sauvegarde_a`).
    pub fn preparer_sauvegarde(&mut self) -> (r: Option<Note>)
        ensures
            final(self).sauvegarde_preparee(*old(self), r),
            r matches Some(n) ==> n.modifie_le.valide(),
    {
        let instant = maintenant();
        self.preparer_sauvegarde_a(instant)
    }

    /// La réponse du backend à une sauvegarde : l'erreur s'efface ou est retenue.
    pub fn terminer_operation(&mut self, resultat: Result<(), String>)
        ensures
            match resultat {
                Ok(_) => final(self).erreur is None,
                Err(e) => final(self).erreur == Some(e),
            },
            final(self).memes_notes(*old(self)),
            final(self).memes_filtres(*old(self)),
            final(self).meme_edition(*old(self)),
            final(self).meme_affichage(*old(self)),
            final(self).backend == old(self).backend,
    {
        match resultat {
            Ok(()) => self.erreur = None,
            Err(e) => self.erreur = Some(e),
        }
    }

    /// La note à supprimer : celle qui est sélectionnée, s'il y en a une.
    pub fn note_a_supprimer(&self) -> (r: Option<u128>)
        ensures
            r == self.selected_note,
    {
        self.selected_note
    }

    /// La réponse du backend à la suppression de `id` : en cas de succès les
    /// notes qui portent `id` quittent l'état, la sélection et l'édition se
    /// vident, l'erreur s'efface ; sinon l'erreur est retenue.
    pub fn terminer_suppression(&mut self, id: u128, resultat: Result<(), String>)
        ensures
            match resultat {
                Ok(_) => {
                    &&& fiches(final(self).state.notes@) == sans_id(fiches(old(self).state.notes@), id)
                    &&& final(self).selected_note is None
                    &&& final(self).edit_titre@.len() == 0
                    &&& final(self).edit_contenu@.len() == 0
                    &&& final(self).edit_tags@.len() == 0
                    &&& final(self).erreur is None
                },
                Err(e) => {
                    &&& final(self).erreur == Some(e)
                    &&& final(self).memes_notes(*old(self))
                    &&& final(self).meme_edition(*old(self))
                },
            },
            final(self).memes_filtres(*old(self)),
            final(self).meme_affichage(*old(self)),
            final(self).backend == old(self).backend,
    {
        match resultat {
            Ok(()) => {
                retirer_id(&mut self.state.notes, id);
                self.selected_note = None;
                self.edit_titre = String::new();
                self.edit_contenu = String::new();
                self.edit_tags = String::new();
                self.erreur = None;
            },
            Err(e) => self.erreur = Some(e),
        }
    }

    /// Le backend vers lequel basculer : l'autre.
    pub fn backend_cible(&self) -> (r: Backend)
        ensures
            r == self.backend.oppose(),
    {
        self.backend.autre()
    }

    /// Ce qu'a donné le changement de backend : la création du nouveau backend
    /// et, si elle a réussi, la lecture de ses notes. En cas de succès le
    /// backend change, les notes sont rechargées, la sélection se vide et
    /// l'erreur s'efface (celle de la lecture comprise) ; sinon l'erreur de
    /// création est retenue et rien d'autre ne change.
    pub fn terminer_bascule(&mut self, resultat: Result<(Backend, Result<Vec<Note>, String>), String>)
        ensures
            match resultat {
                Ok((b, Ok(v))) => {
                    &&& final(self).backend == b
                    &&& final(self).state.notes == v
                    &&& final(self).selected_note is None
                    &&& final(self).erreur is None
                },
                Ok((b, Err(_))) => {
                    &&& final(self).backend == b
                    &&& final(self).memes_notes(*old(self))
                    &&& final(self).selected_note is None
                    &&& final(self).erreur is None
                },
                Err(e) => {
                    &&& final(self).erreur == Some(e)
                    &&& final(self).backend == old(self).backend
                    &&& final(self).memes_notes(*old(self))
                    &&& final(self).selected_note == old(self).selected_note
                },
            },
            final(self).edit_titre == old(self).edit_titre,
            final(self).edit_contenu == old(self).edit_contenu,
            final(self).edit_tags == old(self).edit_tags,
            final(self).memes_filtres(*old(self)),
            final(self).meme_affichage(*old(self)),
    {
        match resultat {
            Ok((backend, chargement)) => {
                self.backend = backend;
                self.charger_notes(chargement);
                self.selected_note = None;
                self.erreur = None;
            },
            Err(e) => self.erreur = Some(e),
        }
    }

    /// Sélectionne la note `id` ; si elle est dans l'état, l'édition reprend
    /// son titre, son contenu et ses tags joints par « , ».
    pub fn selectionner_note(&mut self, id: u128)
        ensures
            final(self).selected_note == Some(id),
            absente(old(self).state.notes@, id) ==> {
                &&& final(self).edit_titre == old(self).edit_titre
                &&& final(self).edit_contenu == old(self).edit_contenu
                &&& final(self).edit_tags == old(self).edit_tags
            },
            forall|i: int|
                trouvee_en(old(self).state.notes@, id, i) ==> {
                    &&& final(self).edit_titre@ == old(self).state.notes@[i].titre@
                    &&& final(self).edit_contenu@ == old(self).state.notes@[i].contenu@
                    &&& final(self).edit_tags@ == jointure(
                        vues(old(self).state.notes@[i].tags@),
                        ", "@,
                    )
                },
            final(self).memes_notes(*old(self)),
            final(self).memes_filtres(*old(self)),
            final(self).meme_affichage(*old(self)),
            final(self).backend == old(self).backend,
            final(self).erreur == old(self).erreur,
    {
        self.selected_note = Some(id);
        match chercher(&self.state.notes, id) {
            None => {},
            Some(i) => {
                let titre = self.state.notes[i].titre.clone();
                let contenu = self.state.notes[i].contenu.clone();
                let tags = joindre(&self.state.notes[i].tags, ", ");
                self.edit_titre = titre;
                self.edit_contenu = contenu;
                self.edit_tags = tags;
                assert forall|j: int| trouvee_en(old(self).state.notes@, id, j) implies j == i by {
                    if j < i {
                        assert(old(self).state.notes@[j].id != id);
                    } else if j > i {
                        assert(old(self).state.notes@[i as int].id != id);
                    }
                }
            },
        }
    }

    /// Escape : plus de sélection, édition vidée.
    pub fn deselectionner(&mut self)
        ensures
            final(self).selected_note is None,
            final(self).edit_titre@.len() == 0,
            final(self).edit_contenu@.len() == 0,
            final(self).edit_tags@.len() == 0,
            final(self).memes_notes(*old(self)),
            final(self).memes_filtres(*old(self)),
            final(self).meme_affichage(*old(self)),
            final(self).backend == old(self).backend,
            final(self).erreur == old(self).erreur,
    {
        self.selected_note = None;
        self.edit_titre = String::new();
        self.edit_contenu = String::new();
        self.edit_tags = String::new();
    }

    /// Ferme le bandeau d'erreur.
    pub fn effacer_erreur(&mut self)
        ensures
            final(self).erreur is None,
            final(self).memes_notes(*old(self)),
            final(self).memes_filtres(*old(self)),
            final(self).meme_edition(*old(self)),
            final(self).meme_affichage(*old(self)),
            final(self).backend == old(self).backend,
    {
        self.erreur = None;
    }

    /// Bascule entre thème clair et thème sombre ; rend le nouveau thème
    /// (vrai pour sombre).
    pub fn basculer_theme(&mut self) -> (r: bool)
        ensures
            r == final(self).theme_sombre,
            final(self).theme_sombre == !old(self).theme_sombre,
            final(self).afficher_dashboard == old(self).afficher_dashboard,
            final(self).export_statut == old(self).export_statut,
            final(self).import_en_cours == old(self).import_en_cours,
            final(self).memes_notes(*old(self)),
            final(self).memes_filtres(*old(self)),
            final(self).meme_edition(*old(self)),
            final(self).backend == old(self).backend,
            final(self).erreur == old(self).erreur,
    {
        self.theme_sombre = !self.theme_sombre;
        self.theme_sombre
    }

    /// Montre ou cache le tableau de bord.
    pub fn basculer_dashboard(&mut self)
        ensures
            final(self).afficher_dashboard == !old(self).afficher_dashboard,
            final(self).theme_sombre == old(self).theme_sombre,
            final(self).export_statut == old(self).export_statut,
            final(self).import_en_cours == old(self).import_en_cours,
            final(self).memes_notes(*old(self)),
            final(self).memes_filtres(*old(self)),
            final(self).meme_edition(*old(self)),
            final(self).backend == old(self).backend,
            final(self).erreur == old(self).erreur,
    {
        self.afficher_dashboard = !self.afficher_dashboard;
    }

    /// Le bouton « Importer REST » lance un import s'il n'y en a pas déjà un
    /// en cours ; rend vrai s'il faut le lancer.
    pub fn demarrer_import(&mut self) -> (r: bool)
        ensures
            r == !old(self).import_en_cours,
            final(self).import_en_cours,
            final(self).theme_sombre == old(self).theme_sombre,
            final(self).afficher_dashboard == old(self).afficher_dashboard,
            final(self).export_statut == old(self).export_statut,
            final(self).memes_notes(*old(self)),
            final(self).memes_filtres(*old(self)),
            final(self).meme_edition(*old(self)),
            final(self).backend == old(self).backend,
            final(self).erreur == old(self).erreur,
    {
        if self.import_en_cours {
            return false;
        }
        self.import_en_cours = true;
        true
    }

    /// Ce que l'application a reçu de l'import en cours. Rien : rien ne
    /// change. Sinon l'import s'achève : une erreur (ou un canal fermé) devient
    /// « Import REST : … », et des notes reçues sont rendues pour que
    /// l'application les confie une à une au backend.
    pub fn recevoir_import(&mut self, reception: Reception) -> (r: Option<Vec<Note>>)
        ensures
            match reception {
                Reception::Rien => {
                    &&& r is None
                    &&& final(self).import_en_cours == old(self).import_en_cours
                    &&& final(self).erreur == old(self).erreur
                },
                Reception::Deconnecte => {
                    &&& r is None
                    &&& !final(self).import_en_cours
                    &&& vue_message(final(self).erreur) == Some(
                        "Import REST : Canal de réception déconnecté"@,
                    )
                },
                Reception::Recu(Err(e)) => {
                    &&& r is None
                    &&& !final(self).import_en_cours
                    &&& vue_message(final(self).erreur) == Some("Import REST : "@ + e@)
                },
                Reception::Recu(Ok(v)) => {
                    &&& r == Some(v)
                    &&& !final(self).import_en_cours
                    &&& final(self).erreur == old(self).erreur
                },
            },
            final(self).theme_sombre == old(self).theme_sombre,
            final(self).afficher_dashboard == old(self).afficher_dashboard,
            final(self).export_statut == old(self).export_statut,
            final(self).memes_notes(*old(self)),
            final(self).memes_filtres(*old(self)),
            final(self).meme_edition(*old(self)),
            final(self).backend == old(self).backend,
    {
        match reception {
            Reception::Rien => None,
            Reception::Deconnecte => {
                self.import_en_cours = false;
                let m = String::from_str("Import REST : Canal de réception déconnecté");
                self.erreur = Some(m);
                None
            },
            Reception::Recu(Err(e)) => {
                self.import_en_cours = false;
                self.erreur = Some(prefixer("Import REST : ", e.as_str()));
                None
            },
            Reception::Recu(Ok(v)) => {
                self.import_en_cours = false;
                Some(v)
            },
        }
    }

    /// La réponse du backend à la création d'une note importée : ajoutée à
    /// l'état si elle a réussi ; sinon l'erreur est retenue et l'import doit
    /// s'arrêter. Rend vrai s'il faut continuer.
    pub fn integrer_note_importee(&mut self, note: Note, resultat: Result<(), String>) -> (r: bool)
        ensures
            r == resultat is Ok,
            match resultat {
                Ok(_) => fiches(final(self).state.notes@) == fiches(old(self).state.notes@).push(
                    note@,
                ) && final(self).erreur == old(self).erreur,
                Err(e) => final(self).memes_notes(*old(self)) && final(self).erreur == Some(e),
            },
            final(self).memes_filtres(*old(self)),
            final(self).meme_edition(*old(self)),
            final(self).meme_affichage(*old(self)),
            final(self).backend == old(self).backend,
    {
        match resultat {
            Ok(()) => {
                let ghost avant = self.state.notes@;
                self.state.notes.push(note);
                assert(fiches(self.state.notes@) =~= fiches(avant).push(note@));
                true
            },
            Err(e) => {
                self.erreur = Some(e);
                false
            },
        }
    }

    /// Fin de l'intégration des notes importées : l'erreur s'efface, même
    /// celle d'une création qui a échoué.
    pub fn terminer_import(&mut self)
        ensures
            final(self).erreur is None,
            final(self).memes_notes(*old(self)),
            final(self).memes_filtres(*old(self)),
            final(self).meme_edition(*old(self)),
            final(self).meme_affichage(*old(self)),
            final(self).backend == old(self).backend,
    {
        self.erreur = None;
    }

    /// Le nom du fichier d'export daté de l'instant `h` :
    /// « export_notes_AAAAMMJJ_HHMMSS.json ».
    pub fn nom_fichier_export_a(h: Horodatage) -> (r: String)
        requires
            h.valide(),
        ensures
            r@ == "export_notes_"@ + date_compacte(h.secondes, h.nanos) + ".json"@,
    {
        let mut r = String::from_str("export_notes_");
        let d = formater_date_compacte(h);
        r.append(d.as_str());
        r.append(".json");
        r
    }

    /// Le nom du fichier d'export, daté de maintenant.
    pub fn nom_fichier_export() -> (r: String)
        ensures
            exists|h: Horodatage|
                h.valide() && h.nanos < 1_000_000_000 && r@ == "export_notes_"@ + date_compacte(
                    h.secondes,
                    h.nanos,
                ) + ".json"@,
    {
        Self::nom_fichier_export_a(maintenant())
    }

    /// Ce qu'a donné l'export : le statut « Exporté : <chemin> », ou l'erreur
    /// de l'écriture ou de la mise en JSON.
    pub fn terminer_export(&mut self, resultat: ResultatExport)
        ensures
            match resultat {
                ResultatExport::Ecrit(chemin) => vue_message(final(self).export_statut) == Some(
                    "Exporté : "@ + chemin@,
                ) && final(self).erreur == old(self).erreur,
                ResultatExport::EchecEcriture(e) => vue_message(final(self).erreur) == Some(
                    "Export échoué : "@ + e@,
                ) && final(self).export_statut == old(self).export_statut,
                ResultatExport::EchecSerialisation(e) => vue_message(final(self).erreur) == Some(
                    "Sérialisation export : "@ + e@,
                ) && final(self).export_statut == old(self).export_statut,
            },
            final(self).theme_sombre == old(self).theme_sombre,
            final(self).afficher_dashboard == old(self).afficher_dashboard,
            final(self).import_en_cours == old(self).import_en_cours,
            final(self).memes_notes(*old(self)),
            final(self).memes_filtres(*old(self)),
            final(self).meme_edition(*old(self)),
            final(self).backend == old(self).backend,
    {
        match resultat {
            ResultatExport::Ecrit(chemin) => {
                self.export_statut = Some(prefixer("Exporté : ", chemin.as_str()));
            },
            ResultatExport::EchecEcriture(e) => {
                self.erreur = Some(prefixer("Export échoué : ", e.as_str()));
            },
            ResultatExport::EchecSerialisation(e) => {
                self.erreur = Some(prefixer("Sérialisation export : ", e.as_str()));
            },
        }
    }

    /// Les chiffres du tableau de bord : nombre de notes, nombre de tags
    /// distincts, date de dernière modification (« — » sans note).
    pub fn tableau_de_bord(&self) -> (r: TableauDeBord)
        requires
            notes_datees(fiches(self.state.notes@)),
        ensures
            r.total == self.state.notes@.len(),
            r.nb_tags == crate::model::nombre_de_tags(fiches(self.state.notes@)),
            self.state.notes@.len() == 0 ==> r.derniere@ == "—"@,
            self.state.notes@.len() > 0 ==> exists|i: int|
                0 <= i < self.state.notes@.len() && crate::model::la_plus_recente(
                    fiches(self.state.notes@),
                    i,
                ) && r.derniere@ == date_courte(
                    self.state.notes@[i].modifie_le.secondes,
                    self.state.notes@[i].modifie_le.nanos,
                ) && forall|k: int|
                    0 <= k < self.state.notes@.len() ==> (#[trigger] self.state.notes@[k]).modifie_le.secondes
                        < self.state.notes@[i].modifie_le.secondes || (
                    self.state.notes@[k].modifie_le.secondes == self.state.notes@[i].modifie_le.secondes
                        && self.state.notes@[k].modifie_le.nanos
                        <= self.state.notes@[i].modifie_le.nanos),
    {
        let total = self.state.notes.len();
        let tags = self.state.tous_les_tags();
        let nb_tags = tags.len();
        let ghost mut temoin: int = 0;
        let derniere = match self.state.derniere_modification() {
            Some(d) => {
                proof {
                    temoin = choose|i: int|
                        0 <= i < self.state.notes@.len() && self.state.notes@[i].modifie_le == d;
                    assert(fiches(self.state.notes@)[temoin].modifie_le == d);
                    assert forall|k: int| 0 <= k < self.state.notes@.len() implies !fiches(
                        self.state.notes@,
                    )[temoin].modifie_le.anterieur(#[trigger] fiches(self.state.notes@)[k].modifie_le) by {
                        assert(!d.anterieur(self.state.notes@[k].modifie_le));
                    }
                    assert(crate::model::la_plus_recente(fiches(self.state.notes@), temoin));
                }
                let texte = formater_date_courte(d);
                assert(texte@ == date_courte(
                    self.state.notes@[temoin].modifie_le.secondes,
                    self.state.notes@[temoin].modifie_le.nanos,
                ));
                texte
            },
            None => String::from_str("—"),
        };
        proof {
            crate::model::lemme_nombre_de_tags(fiches(self.state.notes@), vues(tags@));
            if self.state.notes@.len() > 0 {
                crate::model::loi_la_plus_recente(fiches(self.state.notes@), temoin);
                assert forall|k: int| 0 <= k < self.state.notes@.len() implies (#[trigger] self.state.notes@[k]).modifie_le.secondes
                    < self.state.notes@[temoin].modifie_le.secondes || (
                self.state.notes@[k].modifie_le.secondes == self.state.notes@[temoin].modifie_le.secondes
                    && self.state.notes@[k].modifie_le.nanos
                    <= self.state.notes@[temoin].modifie_le.nanos) by {
                    assert(fiches(self.state.notes@)[k].modifie_le == self.state.notes@[k].modifie_le);
                    assert(fiches(self.state.notes@)[temoin].modifie_le == self.state.notes@[temoin].modifie_le);
                }
                assert(0 <= temoin < self.state.notes@.len() && crate::model::la_plus_recente(
                    fiches(self.state.notes@),
                    temoin,
                ) && derniere@ == date_courte(
                    self.state.notes@[temoin].modifie_le.secondes,
                    self.state.notes@[temoin].modifie_le.nanos,
                ));
            }
        }
        TableauDeBord { total, nb_tags, derniere }
    }
}

} // verus!
