//! Outils vérifiés sur les chaînes de caractères : recherche de sous-chaîne,
//! espaces blancs, découpage des tags, jointure, ordre lexicographique et
//! écriture décimale.
use vstd::prelude::*;
use vstd::std_specs::iter::IteratorSpec;
use vstd::string::*;

verus! {

broadcast use vstd::string::group_string_axioms;

/// Les caractères d'une chaîne, dans l'ordre.
pub fn caracteres(s: &str) -> (r: Vec<char>)
    ensures
        r@ == s@,
{
    let mut r: Vec<char> = Vec::new();
    for c in it: s.chars()
        invariant
            r@ == it.seq().take(it.index() as int),
    {
        r.push(c);
    }
    r
}

// ─── Sous-chaînes ──────────────────────────────────────────────────────────

/// `motif` apparaît dans `texte` à la position `i`.
pub open spec fn apparait_en(motif: Seq<char>, texte: Seq<char>, i: int) -> bool {
    &&& 0 <= i
    &&& i + motif.len() <= texte.len()
    &&& texte.subrange(i, i + motif.len()) == motif
}

/// `motif` est une sous-chaîne de `texte` (la chaîne vide l'est toujours).
pub open spec fn est_sous_chaine(motif: Seq<char>, texte: Seq<char>) -> bool {
    exists|i: int| apparait_en(motif, texte, i)
}

fn apparait_a(motif: &Vec<char>, texte: &Vec<char>, i: usize) -> (r: bool)
    requires
        i + motif@.len() <= texte@.len(),
    ensures
        r == apparait_en(motif@, texte@, i as int),
{
    let m = motif.len();
    let mut j: usize = 0;
    while j < m
        invariant
            m == motif@.len(),
            i + m <= texte.len(),
            j <= m,
            forall|k: int| 0 <= k < j ==> texte@[i + k] == motif@[k],
        decreases m - j,
    {
        if texte[i + j] != motif[j] {
            assert(texte@.subrange(i as int, i + m)[j as int] != motif@[j as int]);
            return false;
        }
        j = j + 1;
    }
    assert(texte@.subrange(i as int, i + m) =~= motif@);
    true
}

/// Dit si `motif` apparaît dans `texte`, comme `str::contains`.
pub fn contient(texte: &str, motif: &str) -> (r: bool)
    ensures
        r == est_sous_chaine(motif@, texte@),
{
    let t = caracteres(texte);
    let p = caracteres(motif);
    if p.len() > t.len() {
        return false;
    }
    let fin = t.len() - p.len();
    let mut i: usize = 0;
    while i <= fin
        invariant
            t@ == texte@,
            p@ == motif@,
            fin + p@.len() == t@.len(),
            forall|k: int| 0 <= k < i ==> !apparait_en(motif@, texte@, k),
        decreases fin + 1 - i,
    {
        if apparait_a(&p, &t, i) {
            return true;
        }
        if i == fin {
            assert forall|k: int| apparait_en(motif@, texte@, k) implies false by {
                assert(k <= fin);
            }
            return false;
        }
        i = i + 1;
    }
    false
}

/// `str::to_lowercase` : la mise en minuscules Unicode d'une chaîne.
pub uninterp spec fn en_minuscules(s: Seq<char>) -> Seq<char>;

/// Appelle `str::to_lowercase`. Le contrat dit que le résultat est la mise en
/// minuscules de l'argument, nommée `en_minuscules`, et que celle de la chaîne
/// vide est vide ; les tables Unicode qui la définissent ne sont pas écrites ici.
#[verifier::external_body]
pub(crate) fn minuscules(s: &str) -> (r: String)
    ensures
        r@ == en_minuscules(s@),
        s@.len() == 0 ==> r@.len() == 0,
{
    s.to_lowercase()
}

// ─── Espaces blancs et rognage ─────────────────────────────────────────────

/// Les caractères de la propriété Unicode `White_Space` (ceux de `char::is_whitespace`).
pub open spec fn est_blanc(c: char) -> bool {
    let n = c as u32;
    ||| 0x09 <= n <= 0x0D
    ||| n == 0x20
    ||| n == 0x85
    ||| n == 0xA0
    ||| n == 0x1680
    ||| 0x2000 <= n <= 0x200A
    ||| n == 0x2028
    ||| n == 0x2029
    ||| n == 0x202F
    ||| n == 0x205F
    ||| n == 0x3000
}

/// Dit si `c` est un espace blanc au sens Unicode.
pub fn est_espace(c: char) -> (r: bool)
    ensures
        r == est_blanc(c),
{
    let n = c as u32;
    (0x09 <= n && n <= 0x0D) || n == 0x20 || n == 0x85 || n == 0xA0 || n == 0x1680
        || (0x2000 <= n && n <= 0x200A) || n == 0x2028 || n == 0x2029 || n == 0x202F
        || n == 0x205F || n == 0x3000
}

/// Retire les blancs de tête.
pub open spec fn rogne_debut(s: Seq<char>) -> Seq<char>
    decreases s.len(),
{
    if s.len() > 0 && est_blanc(s[0]) {
        rogne_debut(s.drop_first())
    } else {
        s
    }
}

/// Retire les blancs de queue.
pub open spec fn rogne_fin(s: Seq<char>) -> Seq<char>
    decreases s.len(),
{
    if s.len() > 0 && est_blanc(s.last()) {
        rogne_fin(s.drop_last())
    } else {
        s
    }
}

/// Retire les blancs des deux bouts, comme `str::trim`.
pub open spec fn rogner(s: Seq<char>) -> Seq<char> {
    rogne_fin(rogne_debut(s))
}

/// Les bornes `[p, q)` de `s[a..b]` une fois rogné.
fn bornes_rognees(s: &Vec<char>, a: usize, b: usize) -> (r: (usize, usize))
    requires
        a <= b <= s@.len(),
    ensures
        a <= r.0 <= r.1 <= b,
        s@.subrange(r.0 as int, r.1 as int) == rogner(s@.subrange(a as int, b as int)),
{
    let mut p = a;
    while p < b && est_espace(s[p])
        invariant
            a <= p <= b <= s@.len(),
            rogne_debut(s@.subrange(a as int, b as int)) == rogne_debut(
                s@.subrange(p as int, b as int),
            ),
        decreases b - p,
    {
        assert(s@.subrange(p as int, b as int).drop_first() =~= s@.subrange(p + 1, b as int));
        p = p + 1;
    }
    let mut q = b;
    while q > p && est_espace(s[q - 1])
        invariant
            a <= p <= q <= b <= s@.len(),
            rogne_debut(s@.subrange(a as int, b as int)) == s@.subrange(p as int, b as int),
            rogne_fin(s@.subrange(p as int, b as int)) == rogne_fin(
                s@.subrange(p as int, q as int),
            ),
        decreases q - p,
    {
        assert(s@.subrange(p as int, q as int).drop_last() =~= s@.subrange(p as int, q - 1));
        q = q - 1;
    }
    (p, q)
}


/// `s[a..b]`, rogné.
fn morceau_rogne(s: &str, v: &Vec<char>, a: usize, b: usize) -> (r: String)
    requires
        v@ == s@,
        a <= b <= v@.len(),
    ensures
        r@ == rogner(s@.subrange(a as int, b as int)),
{
    let (p, q) = bornes_rognees(v, a, b);
    String::from_str(s.substring_char(p, q))
}

// ─── Découpage des tags ────────────────────────────────────────────────────

/// Les morceaux de `s` séparés par des virgules, comme `str::split(',')` :
/// il y en a toujours au moins un, et deux virgules voisines donnent un morceau vide.
pub open spec fn morceaux(s: Seq<char>) -> Seq<Seq<char>>
    decreases s.len(),
{
    if s.len() == 0 {
        seq![Seq::<char>::empty()]
    } else {
        let m = morceaux(s.drop_last());
        if s.last() == ',' {
            m.push(Seq::<char>::empty())
        } else {
            m.update(m.len() - 1, m.last().push(s.last()))
        }
    }
}

/// Les morceaux rognés, privés de ceux qui sont vides.
pub open spec fn tags_retenus(pieces: Seq<Seq<char>>) -> Seq<Seq<char>>
    decreases pieces.len(),
{
    if pieces.len() == 0 {
        Seq::<Seq<char>>::empty()
    } else {
        let r = tags_retenus(pieces.drop_last());
        let t = rogner(pieces.last());
        if t.len() > 0 {
            r.push(t)
        } else {
            r
        }
    }
}

/// Les tags que désigne une saisie du type « travail, important ».
pub open spec fn analyse_tags(s: Seq<char>) -> Seq<Seq<char>> {
    tags_retenus(morceaux(s))
}

/// La vue d'une suite de chaînes.
pub open spec fn vues(v: Seq<String>) -> Seq<Seq<char>> {
    v.map_values(|t: String| t@)
}

proof fn lemme_morceaux_non_vides(s: Seq<char>)
    ensures
        morceaux(s).len() >= 1,
    decreases s.len(),
{
    if s.len() > 0 {
        lemme_morceaux_non_vides(s.drop_last());
    }
}

/// Découpe la saisie des tags : morceaux séparés par des virgules, rognés,
/// les vides écartés.
pub fn analyser_tags(s: &str) -> (r: Vec<String>)
    ensures
        vues(r@) == analyse_tags(s@),
{
    let v = caracteres(s);
    let n = v.len();
    let mut r: Vec<String> = Vec::new();
    let mut debut: usize = 0;
    let mut i: usize = 0;
    let ghost mut brutes: Seq<Seq<char>> = Seq::empty();
    assert(s@.take(0) =~= Seq::<char>::empty());
    assert(s@.subrange(0, 0) =~= Seq::<char>::empty());
    while i < n
        invariant
            v@ == s@,
            n == v@.len(),
            debut <= i <= n,
            morceaux(s@.take(i as int)) == brutes.push(s@.subrange(debut as int, i as int)),
            vues(r@) == tags_retenus(brutes),
        decreases n - i,
    {
        let c = v[i];
        assert(s@.take(i + 1).drop_last() =~= s@.take(i as int));
        if c == ',' {
            let t = morceau_rogne(s, &v, debut, i);
            proof {
                let ancien = brutes;
                brutes = brutes.push(s@.subrange(debut as int, i as int));
                assert(brutes.drop_last() =~= ancien);
                assert(s@.subrange(i + 1, i + 1) =~= Seq::<char>::empty());
            }
            if !t.as_str().is_empty() {
                proof {
                    assert(t@.len() > 0);
                }
                r.push(t);
                assert(vues(r@) =~= tags_retenus(brutes));
            } else {
                proof {
                    assert(t@.len() == 0);
                }
            }
            debut = i + 1;
        } else {
            assert(s@.subrange(debut as int, i as int).push(c) =~= s@.subrange(debut as int, i + 1));
            assert(brutes.push(s@.subrange(debut as int, i as int)).update(
                brutes.len() as int,
                s@.subrange(debut as int, i + 1),
            ) =~= brutes.push(s@.subrange(debut as int, i + 1)));
        }
        i = i + 1;
    }
    let t = morceau_rogne(s, &v, debut, n);
    proof {
        let ancien = brutes;
        brutes = brutes.push(s@.subrange(debut as int, n as int));
        assert(brutes.drop_last() =~= ancien);
        assert(s@.take(n as int) =~= s@);
    }
    if !t.as_str().is_empty() {
        proof {
            assert(t@.len() > 0);
        }
        r.push(t);
        assert(vues(r@) =~= tags_retenus(brutes));
    } else {
        proof {
            assert(t@.len() == 0);
        }
    }
    r
}


// ─── Jointure ──────────────────────────────────────────────────────────────

/// Les morceaux mis bout à bout, séparés par `sep`, comme `join`.
pub open spec fn jointure(parts: Seq<Seq<char>>, sep: Seq<char>) -> Seq<char>
    decreases parts.len(),
{
    if parts.len() == 0 {
        Seq::<char>::empty()
    } else if parts.len() == 1 {
        parts[0]
    } else {
        jointure(parts.drop_last(), sep) + sep + parts.last()
    }
}

/// Joint les chaînes de `parts` en les séparant par `sep`.
pub fn joindre(parts: &Vec<String>, sep: &str) -> (r: String)
    ensures
        r@ == jointure(vues(parts@), sep@),
{
    let mut r = String::new();
    let n = parts.len();
    let mut i: usize = 0;
    while i < n
        invariant
            n == parts@.len(),
            i <= n,
            r@ == jointure(vues(parts@).take(i as int), sep@),
        decreases n - i,
    {
        let ghost avant_ajout = vues(parts@).take(i as int);
        assert(vues(parts@).take(i + 1).drop_last() =~= avant_ajout);
        if i > 0 {
            r.append(sep);
        }
        r.append(parts[i].as_str());
        proof {
            if i == 0 {
                assert(r@ =~= vues(parts@).take(1)[0]);
            }
        }
        i = i + 1;
    }
    assert(vues(parts@).take(n as int) =~= vues(parts@));
    r
}

/// Un tag « propre » : non vide, sans virgule, et déjà rogné.
pub open spec fn tag_propre(t: Seq<char>) -> bool {
    &&& t.len() > 0
    &&& !t.contains(',')
    &&& rogner(t) == t
}

proof fn lemme_rogne_debut_blanc(s: Seq<char>)
    requires
        s.len() > 0,
        est_blanc(s[0]),
    ensures
        rogne_debut(s).len() < s.len(),
    decreases s.len(),
{
    lemme_rogne_debut_longueur(s.drop_first());
}

proof fn lemme_rogne_fin_longueur(s: Seq<char>)
    ensures
        rogne_fin(s).len() <= s.len(),
        s.len() > 0 && est_blanc(s.last()) ==> rogne_fin(s).len() < s.len(),
    decreases s.len(),
{
    if s.len() > 0 && est_blanc(s.last()) {
        lemme_rogne_fin_longueur(s.drop_last());
    }
}

proof fn lemme_rogne_debut_longueur(s: Seq<char>)
    ensures
        rogne_debut(s).len() <= s.len(),
    decreases s.len(),
{
    if s.len() > 0 && est_blanc(s[0]) {
        lemme_rogne_debut_longueur(s.drop_first());
    }
}

/// Un tag propre ne commence ni ne finit par un blanc.
proof fn lemme_tag_propre_bords(t: Seq<char>)
    requires
        tag_propre(t),
    ensures
        !est_blanc(t[0]),
        !est_blanc(t.last()),
{
    if est_blanc(t[0]) {
        lemme_rogne_debut_blanc(t);
        lemme_rogne_fin_longueur(rogne_debut(t));
    }
    lemme_rogne_debut_longueur(t);
    if rogne_debut(t) == t {
        lemme_rogne_fin_longueur(t);
    }
}

/// Ajouter à `x` une suite `y` sans virgule allonge le dernier morceau de `x`.
proof fn lemme_morceaux_sans_virgule(x: Seq<char>, y: Seq<char>)
    requires
        !y.contains(','),
    ensures
        morceaux(x).len() >= 1,
        morceaux(x + y) == morceaux(x).update(
            morceaux(x).len() - 1,
            morceaux(x).last() + y,
        ),
    decreases y.len(),
{
    lemme_morceaux_non_vides(x);
    if y.len() == 0 {
        assert(x + y =~= x);
        assert(morceaux(x).last() + y =~= morceaux(x).last());
        assert(morceaux(x).update(morceaux(x).len() - 1, morceaux(x).last()) =~= morceaux(x));
    } else {
        let y0 = y.drop_last();
        assert(!y0.contains(',')) by {
            if y0.contains(',') {
                let k = choose|k: int| 0 <= k < y0.len() && y0[k] == ',';
                assert(y[k] == ',');
            }
        }
        lemme_morceaux_sans_virgule(x, y0);
        assert((x + y).drop_last() =~= x + y0);
        assert(y.last() != ',') by {
            assert(y[y.len() - 1] == y.last());
        }
        assert((morceaux(x).last() + y0).push(y.last()) =~= morceaux(x).last() + y);
        let m = morceaux(x);
        assert(m.update(m.len() - 1, m.last() + y0).update(
            m.len() - 1,
            (m.last() + y0).push(y.last()),
        ) =~= m.update(m.len() - 1, m.last() + y));
    }
}

/// Loi : joindre des tags propres par « , » puis analyser la saisie rend les
/// mêmes tags, dans le même ordre.
pub proof fn loi_tags_jointure_analyse(tags: Seq<Seq<char>>)
    requires
        forall|i: int| 0 <= i < tags.len() ==> tag_propre(#[trigger] tags[i]),
    ensures
        analyse_tags(jointure(tags, ", "@)) == tags,
    decreases tags.len(),
{
    reveal_strlit(", ");
    if tags.len() == 0 {
        assert(jointure(tags, ", "@) =~= Seq::<char>::empty());
        assert(morceaux(Seq::<char>::empty()) =~= seq![Seq::<char>::empty()]);
        assert(seq![Seq::<char>::empty()].drop_last() =~= Seq::<Seq<char>>::empty());
        assert(rogner(Seq::<char>::empty()) =~= Seq::<char>::empty());
        assert(tags =~= Seq::<Seq<char>>::empty());
        assert(tags_retenus(Seq::<Seq<char>>::empty()) =~= Seq::<Seq<char>>::empty());
        assert(analyse_tags(jointure(tags, ", "@)) == tags);
    } else {
        let b = tags.last();
        assert(tag_propre(tags[tags.len() - 1]));
        lemme_tag_propre_bords(b);
        if tags.len() == 1 {
            assert(jointure(tags, ", "@) == b);
            lemme_morceaux_sans_virgule(Seq::<char>::empty(), b);
            assert(Seq::<char>::empty() + b =~= b);
            assert(morceaux(Seq::<char>::empty()) =~= seq![Seq::<char>::empty()]);
            assert(morceaux(b) =~= seq![b]);
            assert(seq![b].drop_last() =~= Seq::<Seq<char>>::empty());
            assert(tags =~= seq![b]);
            assert(rogner(b) == b);
            assert(tags_retenus(seq![b]) == tags_retenus(seq![b].drop_last()).push(b));
            assert(tags_retenus(Seq::<Seq<char>>::empty()) =~= Seq::<Seq<char>>::empty());
            assert(Seq::<Seq<char>>::empty().push(b) =~= seq![b]);
            assert(analyse_tags(jointure(tags, ", "@)) == tags);
        } else {
            let t0 = tags.drop_last();
            assert forall|i: int| 0 <= i < t0.len() implies tag_propre(#[trigger] t0[i]) by {
                assert(t0[i] == tags[i]);
            }
            loi_tags_jointure_analyse(t0);
            let j = jointure(t0, ", "@);
            let y = seq![' '] + b;
            assert(!y.contains(',')) by {
                if y.contains(',') {
                    let k = choose|k: int| 0 <= k < y.len() && y[k] == ',';
                    assert(k > 0);
                    assert(b[k - 1] == ',');
                }
            }
            assert(jointure(tags, ", "@) =~= j.push(',') + y);
            assert(j.push(',').drop_last() =~= j);
            lemme_morceaux_non_vides(j);
            lemme_morceaux_sans_virgule(j.push(','), y);
            let m = morceaux(j);
            assert(morceaux(j.push(',')) == m.push(Seq::<char>::empty()));
            assert(Seq::<char>::empty() + y =~= y);
            assert(m.push(Seq::<char>::empty()).update(m.len() as int, Seq::<char>::empty() + y)
                =~= m.push(y));
            assert(m.push(y).drop_last() =~= m);
            assert(y.drop_first() =~= b);
            assert(rogne_debut(y) == rogne_debut(b));
            assert(rogne_debut(b) == b);
            assert(rogne_fin(b) == b);
            assert(tags_retenus(m.push(y)) == tags_retenus(m).push(b));
            assert(morceaux(jointure(tags, ", "@)) == m.push(y));
            assert(analyse_tags(j) == t0);
            assert(tags_retenus(m) == t0);
            assert(tags =~= t0.push(b));
        }
    }
}

proof fn lemme_morceaux_sans_virgule_dedans(s: Seq<char>)
    ensures
        forall|k: int| 0 <= k < morceaux(s).len() ==> !(#[trigger] morceaux(s)[k]).contains(','),
    decreases s.len(),
{
    lemme_morceaux_non_vides(s);
    if s.len() > 0 {
        let s0 = s.drop_last();
        lemme_morceaux_sans_virgule_dedans(s0);
        lemme_morceaux_non_vides(s0);
        let m = morceaux(s0);
        if s.last() != ',' {
            assert forall|k: int| 0 <= k < morceaux(s).len() implies !(
            #[trigger] morceaux(s)[k]).contains(',') by {
                if k == m.len() - 1 {
                    let p = m.last().push(s.last());
                    assert(morceaux(s)[k] == p);
                    if p.contains(',') {
                        let j = choose|j: int| 0 <= j < p.len() && p[j] == ',';
                        if j < m.last().len() {
                            assert(m.last()[j] == ',');
                            assert(m[m.len() - 1].contains(','));
                        }
                    }
                } else {
                    assert(morceaux(s)[k] == m[k]);
                }
            }
        } else {
            assert forall|k: int| 0 <= k < morceaux(s).len() implies !(
            #[trigger] morceaux(s)[k]).contains(',') by {
                if k < m.len() {
                    assert(morceaux(s)[k] == m[k]);
                }
            }
        }
    }
}

proof fn lemme_rogne_debut_inclus(x: Seq<char>)
    ensures
        forall|c: char| #[trigger] rogne_debut(x).contains(c) ==> x.contains(c),
        rogne_debut(x).len() == 0 || !est_blanc(rogne_debut(x)[0]),
        rogne_debut(rogne_debut(x)) == rogne_debut(x),
    decreases x.len(),
{
    if x.len() > 0 && est_blanc(x[0]) {
        let d = x.drop_first();
        lemme_rogne_debut_inclus(d);
        assert forall|c: char| #[trigger] rogne_debut(x).contains(c) implies x.contains(c) by {
            if rogne_debut(d).contains(c) {
                let j = choose|j: int| 0 <= j < d.len() && d[j] == c;
                assert(x[j + 1] == c);
            }
        }
    }
}

proof fn lemme_rogne_fin_prefixe(y: Seq<char>)
    ensures
        rogne_fin(y).len() <= y.len(),
        rogne_fin(y) == y.subrange(0, rogne_fin(y).len() as int),
        rogne_fin(y).len() == 0 || !est_blanc(rogne_fin(y).last()),
    decreases y.len(),
{
    if y.len() > 0 && est_blanc(y.last()) {
        let d = y.drop_last();
        lemme_rogne_fin_prefixe(d);
        assert(d.subrange(0, rogne_fin(d).len() as int) =~= y.subrange(
            0,
            rogne_fin(d).len() as int,
        ));
    } else {
        assert(y.subrange(0, y.len() as int) =~= y);
    }
}

proof fn lemme_rogne_fin_stable(y: Seq<char>)
    requires
        y.len() == 0 || !est_blanc(y.last()),
    ensures
        rogne_fin(y) == y,
{
}

/// Ce que rogne `rogner` ne contient que des caractères de l'argument, ne
/// commence ni ne finit par un blanc, et `rogner` ne le change plus.
proof fn lemme_rogner(x: Seq<char>)
    ensures
        forall|c: char| #[trigger] rogner(x).contains(c) ==> x.contains(c),
        rogner(rogner(x)) == rogner(x),
{
    let y = rogne_debut(x);
    lemme_rogne_debut_inclus(x);
    lemme_rogne_fin_prefixe(y);
    let z = rogne_fin(y);
    assert forall|c: char| #[trigger] rogner(x).contains(c) implies x.contains(c) by {
        if z.contains(c) {
            let j = choose|j: int| 0 <= j < z.len() && z[j] == c;
            assert(y[j] == c);
            assert(y.contains(c));
        }
    }
    if z.len() > 0 {
        assert(z[0] == y[0]);
        assert(rogne_debut(z) == z);
    } else {
        assert(rogne_debut(z) == z);
    }
    lemme_rogne_fin_stable(z);
}

proof fn lemme_tags_retenus_propres(pieces: Seq<Seq<char>>)
    requires
        forall|k: int| 0 <= k < pieces.len() ==> !(#[trigger] pieces[k]).contains(','),
    ensures
        forall|i: int|
            0 <= i < tags_retenus(pieces).len() ==> tag_propre(#[trigger] tags_retenus(pieces)[i]),
    decreases pieces.len(),
{
    if pieces.len() > 0 {
        let p0 = pieces.drop_last();
        assert forall|k: int| 0 <= k < p0.len() implies !(#[trigger] p0[k]).contains(',') by {
            assert(p0[k] == pieces[k]);
        }
        lemme_tags_retenus_propres(p0);
        let t = rogner(pieces.last());
        lemme_rogner(pieces.last());
        assert(!pieces[pieces.len() - 1].contains(','));
        if t.contains(',') {
            assert(pieces.last().contains(','));
        }
        let r0 = tags_retenus(p0);
        if t.len() > 0 {
            assert(tag_propre(t));
            assert(tags_retenus(pieces) == r0.push(t));
            assert forall|i: int| 0 <= i < r0.push(t).len() implies tag_propre(#[trigger] r0.push(t)[i]) by {
                if i < r0.len() {
                    assert(r0.push(t)[i] == r0[i]);
                }
            }
        } else {
            assert(tags_retenus(pieces) == r0);
        }
    }
}

/// Loi : les tags tirés d'une saisie sont propres (non vides, sans virgule,
/// sans blanc aux bords).
pub proof fn loi_tags_saisis_propres(s: Seq<char>)
    ensures
        forall|i: int| 0 <= i < analyse_tags(s).len() ==> tag_propre(#[trigger] analyse_tags(s)[i]),
{
    lemme_morceaux_sans_virgule_dedans(s);
    lemme_tags_retenus_propres(morceaux(s));
}

/// Loi : ressaisir les tags d'une note tels que l'édition les affiche (joints
/// par « , ») redonne les mêmes tags.
pub proof fn loi_tags_ressaisis_stables(s: Seq<char>)
    ensures
        analyse_tags(jointure(analyse_tags(s), ", "@)) == analyse_tags(s),
{
    loi_tags_saisis_propres(s);
    loi_tags_jointure_analyse(analyse_tags(s));
}

/// Un caractère visible : ASCII imprimable autre que l'espace, ou pris dans
/// les plages U+00A1 à U+167F (latin, grec, cyrillique, arabe, indien…) et
/// U+3001 et au-delà (CJK, symboles, emoji), où Unicode ne place aucun espace
/// blanc.
pub open spec fn visible(c: char) -> bool {
    let n = c as u32;
    ||| 0x21 <= n <= 0x7E
    ||| 0xA1 <= n <= 0x167F
    ||| 0x3001 <= n
}

/// Un blanc courant : espace, tabulation, saut de ligne, retour chariot,
/// espace insécable ou espace idéographique.
pub open spec fn blanc_courant(c: char) -> bool {
    ||| c == ' '
    ||| c == '\t'
    ||| c == '\n'
    ||| c == '\r'
    ||| c as u32 == 0xA0
    ||| c as u32 == 0x3000
}

/// Un tag écrit de caractères visibles autres que la virgule.
pub open spec fn tag_visible(t: Seq<char>) -> bool {
    &&& t.len() > 0
    &&& forall|k: int| 0 <= k < t.len() ==> visible(#[trigger] t[k]) && t[k] != ','
}

/// Une suite de blancs courants.
pub open spec fn blancs_courants(w: Seq<char>) -> bool {
    forall|k: int| 0 <= k < w.len() ==> blanc_courant(#[trigger] w[k])
}

proof fn lemme_visible_propre(t: Seq<char>)
    requires
        tag_visible(t),
    ensures
        tag_propre(t),
{
    assert(!est_blanc(t[0]) && visible(t[0]));
    assert(visible(t[t.len() - 1]));
    assert(rogne_debut(t) == t);
    assert(rogne_fin(t) == t);
    assert(!t.contains(',')) by {
        if t.contains(',') {
            let k = choose|k: int| 0 <= k < t.len() && t[k] == ',';
            assert(t[k] != ',');
        }
    }
}

proof fn lemme_rogne_debut_blancs(w: Seq<char>, t: Seq<char>)
    requires
        blancs_courants(w),
        t.len() > 0,
        visible(t[0]),
    ensures
        rogne_debut(w + t) == t,
    decreases w.len(),
{
    if w.len() == 0 {
        assert(w + t =~= t);
    } else {
        assert(blanc_courant(w[0]));
        assert((w + t)[0] == w[0]);
        let w1 = w.drop_first();
        assert forall|k: int| 0 <= k < w1.len() implies blanc_courant(#[trigger] w1[k]) by {
            assert(w1[k] == w[k + 1]);
        }
        lemme_rogne_debut_blancs(w1, t);
        assert((w + t).drop_first() =~= w1 + t);
    }
}

proof fn lemme_rogne_fin_blancs(t: Seq<char>, w: Seq<char>)
    requires
        blancs_courants(w),
        t.len() > 0,
        visible(t.last()),
    ensures
        rogne_fin(t + w) == t,
    decreases w.len(),
{
    if w.len() == 0 {
        assert(t + w =~= t);
    } else {
        assert(blanc_courant(w[w.len() - 1]));
        assert((t + w).last() == w[w.len() - 1]);
        let w1 = w.drop_last();
        assert forall|k: int| 0 <= k < w1.len() implies blanc_courant(#[trigger] w1[k]) by {
            assert(w1[k] == w[k]);
        }
        lemme_rogne_fin_blancs(t, w1);
        assert((t + w).drop_last() =~= t + w1);
    }
}

/// Loi : des tags écrits de caractères visibles, joints par « , », se
/// relisent tels quels — aucune lettre, aucun chiffre, aucune ponctuation
/// n'est rognée d'un tag.
pub proof fn loi_tags_visibles(tags: Seq<Seq<char>>)
    requires
        forall|i: int| 0 <= i < tags.len() ==> tag_visible(#[trigger] tags[i]),
    ensures
        analyse_tags(jointure(tags, ", "@)) == tags,
{
    assert forall|i: int| 0 <= i < tags.len() implies tag_propre(#[trigger] tags[i]) by {
        lemme_visible_propre(tags[i]);
    }
    loi_tags_jointure_analyse(tags);
}

/// Loi : un tag visible entouré de blancs courants (espaces, tabulations,
/// sauts de ligne, espaces insécables…) se lit comme ce seul tag, les blancs
/// retirés.
pub proof fn loi_tag_entoure_de_blancs(avant: Seq<char>, t: Seq<char>, apres: Seq<char>)
    requires
        blancs_courants(avant),
        tag_visible(t),
        blancs_courants(apres),
    ensures
        analyse_tags(avant + t + apres) == seq![t],
{
    let s = avant + t + apres;
    assert(!s.contains(',')) by {
        if s.contains(',') {
            let k = choose|k: int| 0 <= k < s.len() && s[k] == ',';
            if k < avant.len() {
                assert(blanc_courant(avant[k]));
            } else if k < avant.len() + t.len() {
                assert(t[k - avant.len()] != ',');
            } else {
                assert(blanc_courant(apres[k - avant.len() - t.len()]));
            }
        }
    }
    lemme_morceaux_sans_virgule(Seq::<char>::empty(), s);
    assert(Seq::<char>::empty() + s =~= s);
    assert(morceaux(Seq::<char>::empty()) =~= seq![Seq::<char>::empty()]);
    assert(morceaux(s) =~= seq![s]);
    assert(visible(t[0]));
    assert(visible(t[t.len() - 1]));
    assert((t + apres)[0] == t[0]);
    lemme_rogne_debut_blancs(avant, t + apres);
    assert(avant + (t + apres) =~= s);
    assert(t.last() == t[t.len() - 1]);
    lemme_rogne_fin_blancs(t, apres);
    assert(rogner(s) == t);
    assert(seq![s].drop_last() =~= Seq::<Seq<char>>::empty());
    assert(tags_retenus(Seq::<Seq<char>>::empty()) =~= Seq::<Seq<char>>::empty());
    assert(Seq::<Seq<char>>::empty().push(t) =~= seq![t]);
}

// ─── Écriture décimale ─────────────────────────────────────────────────────

/// Le chiffre décimal de valeur `d`.
pub open spec fn chiffre(d: nat) -> char {
    ('0' as nat + d) as char
}

/// L'écriture décimale de `n`, sans zéro de tête (celle de `u32::to_string`).
pub open spec fn decimal(n: nat) -> Seq<char>
    decreases n,
{
    if n < 10 {
        seq![chiffre(n)]
    } else {
        decimal(n / 10).push(chiffre(n % 10))
    }
}

fn texte_chiffre(d: u32) -> (r: &'static str)
    requires
        d < 10,
    ensures
        r@ == seq![chiffre(d as nat)],
{
    proof {
        reveal_strlit("0");
        reveal_strlit("1");
        reveal_strlit("2");
        reveal_strlit("3");
        reveal_strlit("4");
        reveal_strlit("5");
        reveal_strlit("6");
        reveal_strlit("7");
        reveal_strlit("8");
        reveal_strlit("9");
    }
    let r = if d == 0 {
        "0"
    } else if d == 1 {
        "1"
    } else if d == 2 {
        "2"
    } else if d == 3 {
        "3"
    } else if d == 4 {
        "4"
    } else if d == 5 {
        "5"
    } else if d == 6 {
        "6"
    } else if d == 7 {
        "7"
    } else if d == 8 {
        "8"
    } else {
        "9"
    };
    assert(r@ =~= seq![chiffre(d as nat)]);
    r
}

/// Ajoute à `s` l'écriture décimale de `n`.
pub fn ecrire_decimal(s: &mut String, n: u32)
    ensures
        final(s)@ == old(s)@ + decimal(n as nat),
    decreases n,
{
    if n >= 10 {
        ecrire_decimal(s, n / 10);
    }
    s.append(texte_chiffre(n % 10));
    proof {
        if n >= 10 {
            assert(old(s)@ + decimal((n / 10) as nat) + seq![chiffre((n % 10) as nat)] =~= old(s)@
                + decimal(n as nat));
        } else {
            assert(old(s)@ + seq![chiffre((n % 10) as nat)] =~= old(s)@ + decimal(n as nat));
        }
    }
}


// ─── Ordre lexicographique ─────────────────────────────────────────────────

/// `a` et `b` ont les mêmes `k` premiers caractères.
pub open spec fn prefixe_commun(a: Seq<char>, b: Seq<char>, k: int) -> bool {
    &&& 0 <= k <= a.len()
    &&& k <= b.len()
    &&& forall|i: int| 0 <= i < k ==> a[i] == b[i]
}

/// `a` précède `b`, et ils diffèrent pour la première fois à la position `k`.
pub open spec fn avant_en(a: Seq<char>, b: Seq<char>, k: int) -> bool {
    &&& prefixe_commun(a, b, k)
    &&& k < b.len()
    &&& (k == a.len() || (a[k] as u32) < (b[k] as u32))
}

/// L'ordre strict des chaînes de Rust : lexicographique sur les points de code
/// (c'est aussi l'ordre des octets UTF-8).
pub open spec fn avant(a: Seq<char>, b: Seq<char>) -> bool {
    exists|k: int| avant_en(a, b, k)
}

/// Loi : aucune chaîne ne se précède elle-même.
pub proof fn loi_avant_irreflexif(a: Seq<char>)
    ensures
        !avant(a, a),
{
}

/// Loi : l'ordre des chaînes est transitif.
pub proof fn loi_avant_transitif(a: Seq<char>, b: Seq<char>, c: Seq<char>)
    requires
        avant(a, b),
        avant(b, c),
    ensures
        avant(a, c),
{
    let k1 = choose|k: int| avant_en(a, b, k);
    let k2 = choose|k: int| avant_en(b, c, k);
    if k1 < k2 {
        assert(avant_en(a, c, k1));
    } else if k2 < k1 {
        assert(a[k2] == b[k2]);
        assert(avant_en(a, c, k2));
    } else {
        assert(avant_en(a, c, k1));
    }
}

proof fn lemme_car_u32(c: char, d: char)
    requires
        c != d,
    ensures
        (c as u32) != (d as u32),
{
}

/// Loi : deux chaînes distinctes sont comparables.
pub proof fn loi_avant_total(a: Seq<char>, b: Seq<char>)
    requires
        a != b,
    ensures
        avant(a, b) || avant(b, a),
    decreases a.len(),
{
    if a.len() == 0 {
        if b.len() == 0 {
            assert(a =~= b);
        } else {
            assert(avant_en(a, b, 0));
        }
    } else if b.len() == 0 {
        assert(avant_en(b, a, 0));
    } else if a[0] != b[0] {
        lemme_car_u32(a[0], b[0]);
        if (a[0] as u32) < (b[0] as u32) {
            assert(avant_en(a, b, 0));
        } else {
            assert(avant_en(b, a, 0));
        }
    } else {
        let a1 = a.drop_first();
        let b1 = b.drop_first();
        if a1 =~= b1 {
            assert(a.len() == b.len());
            assert(a =~= b) by {
                assert forall|i: int| 0 <= i < a.len() implies a[i] == b[i] by {
                    if i > 0 {
                        assert(a[i] == a1[i - 1]);
                        assert(b[i] == b1[i - 1]);
                    }
                }
            }
        }
        loi_avant_total(a1, b1);
        if avant(a1, b1) {
            let k = choose|k: int| avant_en(a1, b1, k);
            assert forall|i: int| 0 <= i < k + 1 implies a[i] == b[i] by {
                if i > 0 {
                    assert(a1[i - 1] == b1[i - 1]);
                }
            }
            assert(avant_en(a, b, k + 1));
        } else {
            let k = choose|k: int| avant_en(b1, a1, k);
            assert forall|i: int| 0 <= i < k + 1 implies b[i] == a[i] by {
                if i > 0 {
                    assert(b1[i - 1] == a1[i - 1]);
                }
            }
            assert(avant_en(b, a, k + 1));
        }
    }
}

/// Dit si `a` précède strictement `b`.
pub fn precede(a: &Vec<char>, b: &Vec<char>) -> (r: bool)
    ensures
        r == avant(a@, b@),
{
    let mut k: usize = 0;
    while k < a.len() && k < b.len() && a[k] == b[k]
        invariant
            prefixe_commun(a@, b@, k as int),
        decreases a@.len() - k,
    {
        k = k + 1;
    }
    if k < b.len() && (k == a.len() || (a[k] as u32) < (b[k] as u32)) {
        assert(avant_en(a@, b@, k as int));
        true
    } else {
        assert forall|j: int| !avant_en(a@, b@, j) by {
            if avant_en(a@, b@, j) {
                if j > k {
                    assert(a@[k as int] == b@[k as int]);
                }
            }
        }
        false
    }
}

/// Les chaînes sont rangées dans l'ordre strict (donc sans doublon).
pub open spec fn strictement_trie(v: Seq<Seq<char>>) -> bool {
    forall|i: int, j: int| 0 <= i < j < v.len() ==> avant(v[i], v[j])
}

/// Insère `t` à sa place dans `r`, qui est triée, s'il n'y est pas déjà.
pub fn inserer_trie(r: &mut Vec<String>, t: String)
    requires
        strictement_trie(vues(old(r)@)),
    ensures
        strictement_trie(vues(final(r)@)),
        forall|x: Seq<char>| #[trigger] vues(final(r)@).contains(x) <==> (vues(old(r)@).contains(x)
            || x == t@),
{
    let tc = caracteres(t.as_str());
    let n = r.len();
    let mut p: usize = 0;
    while p < n && precede(&caracteres(r[p].as_str()), &tc)
        invariant
            n == r@.len(),
            p <= n,
            tc@ == t@,
            forall|i: int| 0 <= i < p ==> avant(#[trigger] vues(r@)[i], t@),
        decreases n - p,
    {
        p = p + 1;
    }
    let ghost v = vues(r@);
    if p < n && r[p] == t {
        assert(v[p as int] == t@);
        return;
    }
    proof {
        if p < n {
            assert(!avant(v[p as int], t@));
            assert(v[p as int] != t@);
            loi_avant_total(v[p as int], t@);
            assert(avant(t@, v[p as int]));
        }
    }
    r.insert(p, t);
    proof {
        let w = vues(r@);
        assert(w =~= v.insert(p as int, t@));
        assert forall|i: int, j: int| 0 <= i < j < w.len() implies avant(w[i], w[j]) by {
            if j < p {
            } else if j == p {
            } else if i < p {
                if j - 1 > p {
                    loi_avant_transitif(t@, v[p as int], v[j - 1]);
                }
                loi_avant_transitif(v[i], t@, v[j - 1]);
            } else if i == p {
                if j - 1 > p {
                    loi_avant_transitif(t@, v[p as int], v[j - 1]);
                }
            } else {
            }
        }
        assert forall|x: Seq<char>| #[trigger] w.contains(x) <==> (v.contains(x) || x == t@) by {
            if w.contains(x) {
                let k = choose|k: int| 0 <= k < w.len() && w[k] == x;
                if k < p {
                    assert(v[k] == x);
                } else if k > p {
                    assert(v[k - 1] == x);
                }
            }
            if v.contains(x) {
                let k = choose|k: int| 0 <= k < v.len() && v[k] == x;
                if k < p {
                    assert(w[k] == x);
                } else {
                    assert(w[k + 1] == x);
                }
            }
            if x == t@ {
                assert(w[p as int] == x);
            }
        }
    }
}

} // verus!
