//! Les identifiants des notes (UUID), tenus comme des entiers de 128 bits, et
//! les appels au crate `uuid` qui les créent, les écrivent et les relisent.
use uuid::Uuid;
use vstd::prelude::*;

verus! {

/// Le chiffre hexadécimal minuscule de valeur `d` (`d < 16`).
pub open spec fn chiffre_hexa(d: int) -> char {
    if d < 10 {
        ('0' as int + d) as char
    } else {
        ('a' as int + (d - 10)) as char
    }
}

/// `16^k`.
pub open spec fn puissance16(k: nat) -> int
    decreases k,
{
    if k == 0 {
        1
    } else {
        16 * puissance16((k - 1) as nat)
    }
}

/// Les 32 chiffres hexadécimaux de `id`, du plus fort au plus faible.
pub open spec fn hexa32(id: u128) -> Seq<char> {
    Seq::new(32, |i: int| chiffre_hexa((id as int / puissance16((31 - i) as nat)) % 16))
}

/// La forme « trait d'union » d'un UUID (8-4-4-4-12 chiffres minuscules),
/// celle qu'écrit `Uuid::to_string()`.
pub open spec fn texte_uuid(id: u128) -> Seq<char> {
    let h = hexa32(id);
    h.subrange(0, 8) + seq!['-'] + h.subrange(8, 12) + seq!['-'] + h.subrange(12, 16) + seq!['-']
        + h.subrange(16, 20) + seq!['-'] + h.subrange(20, 32)
}

/// L'identifiant porte la version 4 (bits 76 à 79) et la variante RFC 4122
/// (bits 62 et 63).
pub open spec fn uuid_v4(id: u128) -> bool {
    &&& (id as int / puissance16(19)) % 16 == 4
    &&& (id as int / (puissance16(15) * 4)) % 4 == 2
}

/// Appelle `Uuid::new_v4()` et rend sa valeur (`as_u128`). L'identifiant est
/// tiré au hasard : le contrat dit seulement ce que la source de `uuid` fixe
/// de tout tirage, la version et la variante.
#[verifier::external_body]
pub(crate) fn nouvel_identifiant() -> (r: u128)
    ensures
        uuid_v4(r),
{
    Uuid::new_v4().as_u128()
}

/// Appelle `Uuid::from_u128` puis `to_string()` : la forme à traits d'union,
/// en minuscules, des 16 octets gros-boutistes de `id`.
#[verifier::external_body]
pub(crate) fn texte_identifiant(id: u128) -> (r: String)
    ensures
        r@ == texte_uuid(id),
{
    Uuid::from_u128(id).to_string()
}

/// `uuid::Error`, l'erreur de lecture d'un UUID, que la bibliothèque ne lit pas.
#[verifier::external_type_specification]
#[verifier::external_body]
pub struct ExErreurUuid(uuid::Error);

/// L'identifiant que `Uuid::parse_str` lit dans un texte, ou `None` s'il le refuse.
pub uninterp spec fn uuid_lu(s: Seq<char>) -> Option<u128>;

/// L'identifiant d'une lecture réussie.
pub open spec fn identifiant_lu(r: Result<u128, uuid::Error>) -> Option<u128> {
    match r {
        Ok(id) => Some(id),
        Err(_) => None,
    }
}

/// Appelle `Uuid::parse_str` puis `as_u128`. Le contrat nomme l'identifiant
/// lu (`uuid_lu`) et dit, comme la documentation de `uuid`, que la forme à
/// traits d'union qu'écrit ce crate se relit en le même identifiant. Les
/// autres formes acceptées ne sont pas décrites.
#[verifier::external_body]
pub(crate) fn lire_identifiant(s: &str) -> (r: Result<u128, uuid::Error>)
    ensures
        identifiant_lu(r) == uuid_lu(s@),
        forall|id: u128| s@ == #[trigger] texte_uuid(id) ==> identifiant_lu(r) == Some(id),
{
    match Uuid::parse_str(s) {
        Ok(u) => Ok(u.as_u128()),
        Err(e) => Err(e),
    }
}

/// Appelle l'affichage (`Display`) de `uuid::Error`. Le texte dépend du
/// détail de l'erreur, que la bibliothèque ne voit pas : rien n'en est dit.
#[verifier::external_body]
pub(crate) fn texte_erreur_uuid(e: &uuid::Error) -> (r: String) {
    e.to_string()
}

/// Le premier des identifiants de réserve : version 4, variante RFC 4122,
/// tous les bits tirés à zéro.
pub const RESERVE: u128 = 0x4000_8000_0000_0000_0000u128;

proof fn lemme_puissances()
    ensures
        puissance16(15) == 0x1000_0000_0000_0000,
        puissance16(19) == 0x1000_0000_0000_0000_0000,
{
    reveal_with_fuel(puissance16, 20);
}

/// Les identifiants de réserve `RESERVE + k` sont des UUID version 4.
proof fn lemme_reserve_v4(k: int)
    requires
        0 <= k < 0x4000_0000_0000_0000,
    ensures
        uuid_v4((RESERVE + k) as u128),
{
    lemme_puissances();
    let c: int = RESERVE + k;
    assert(c / 0x1000_0000_0000_0000_0000int == 4);
    assert(c / 0x4000_0000_0000_0000int == 0x1_0002);
}

/// Principe des tiroirs : parmi plus d'identifiants distincts que `pris`
/// n'a d'éléments, l'un au moins n'est pas dans `pris`.
proof fn lemme_tiroirs(cands: Seq<u128>, pris: Seq<u128>)
    requires
        cands.no_duplicates(),
        cands.len() > pris.len(),
    ensures
        exists|i: int| 0 <= i < cands.len() && !pris.contains(#[trigger] cands[i]),
{
    if forall|i: int| 0 <= i < cands.len() ==> pris.contains(#[trigger] cands[i]) {
    cands.unique_seq_to_set();
    pris.lemma_cardinality_of_set();
    assert(cands.to_set().subset_of(pris.to_set())) by {
        assert forall|x: u128| cands.to_set().contains(x) implies pris.to_set().contains(x) by {
            assert(cands.contains(x));
            let i = choose|i: int| 0 <= i < cands.len() && cands[i] == x;
            assert(pris.contains(cands[i]));
        }
    }
    vstd::seq_lib::seq_to_set_is_finite(pris);
    vstd::set_lib::lemma_len_subset(cands.to_set(), pris.to_set());
    }
}

/// Dit si `x` est dans `v`.
fn figure_dans(v: &Vec<u128>, x: u128) -> (r: bool)
    ensures
        r == v@.contains(x),
{
    let n = v.len();
    let mut i: usize = 0;
    while i < n
        invariant
            n == v@.len(),
            i <= n,
            forall|k: int| 0 <= k < i ==> v@[k] != x,
        decreases n - i,
    {
        if v[i] == x {
            assert(v@[i as int] == x);
            return true;
        }
        i = i + 1;
    }
    false
}

/// L'identifiant tiré s'il n'est pas déjà pris ; sinon, le premier
/// identifiant de réserve libre. Le résultat est toujours un UUID version 4
/// distinct de ceux de `pris`.
pub(crate) fn identifiant_libre(tire: u128, pris: &Vec<u128>) -> (r: u128)
    requires
        uuid_v4(tire),
        pris@.len() < 1_000_000,
    ensures
        uuid_v4(r),
        !pris@.contains(r),
        !pris@.contains(tire) ==> r == tire,
{
    if !figure_dans(pris, tire) {
        return tire;
    }
    let n = pris.len();
    let mut k: usize = 0;
    let ghost mut cands: Seq<u128> = Seq::empty();
    while k <= n
        invariant
            n == pris@.len(),
            n < 1_000_000,
            pris@.contains(tire),
            k <= n + 1,
            cands.len() == k,
            forall|j: int| 0 <= j < k ==> #[trigger] cands[j] == RESERVE + j,
            forall|j: int| 0 <= j < k ==> pris@.contains(#[trigger] cands[j]),
        decreases n + 1 - k,
    {
        let c: u128 = RESERVE + k as u128;
        if !figure_dans(pris, c) {
            proof {
                lemme_reserve_v4(k as int);
            }
            return c;
        }
        proof {
            cands = cands.push(c);
        }
        k = k + 1;
    }
    proof {
        assert(cands.no_duplicates()) by {
            assert forall|a: int, b: int| 0 <= a < cands.len() && 0 <= b < cands.len() && a != b
                implies cands[a] != cands[b] by {
                assert(cands[a] == RESERVE + a);
                assert(cands[b] == RESERVE + b);
            }
        }
        lemme_tiroirs(cands, pris@);
        let i = choose|i: int| 0 <= i < cands.len() && !pris@.contains(#[trigger] cands[i]);
        assert(pris@.contains(cands[i]));
    }
    tire
}

} // verus!
