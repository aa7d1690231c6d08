# Gestionnaire de notes — cœur vérifié

Application desktop de gestion de notes (egui/eframe) dont la logique est
écrite et prouvée avec Verus.

- `src/` : la bibliothèque vérifiée `projet_final_notes`.
  - `texte` : recherche de sous-chaîne, blancs Unicode, découpage des tags
    saisis, jointure, ordre des chaînes et insertion triée, écriture décimale.
  - `horodatage`, `identifiant` : instants UTC et identifiants UUID tenus comme
    valeurs simples, et les appels à `chrono` et `uuid` qui les produisent,
    les écrivent et les relisent.
  - `model` : notes, backend, filtres, tags uniques, dernière modification.
  - `dao` : ce que décident les backends JSON et SQLite (ajout, remplacement,
    suppression, écriture et lecture des lignes de la table `notes`).
  - `api` : les notes tirées des publications de l'API REST.
  - `controleur` : l'état de l'application et ses transitions.
- `app/` : la fenêtre egui, les fichiers, SQLite (`rusqlite`), le réseau
  (`reqwest`), le répertoire de données (`dirs`) et la forme serde des notes.
- `tests/` : tests d'exécution de la bibliothèque.
