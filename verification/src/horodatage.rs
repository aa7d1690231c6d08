//! Les instants (UTC) tels que la bibliothèque les manipule, et les appels à
//! `chrono` qui les lisent, les écrivent et les formatent.
use chrono::{DateTime, Utc};
use vstd::prelude::*;

verus! {

/// Plus petit nombre de secondes depuis 1970 que `chrono` sache représenter :
/// `NaiveDate::MIN` à minuit, que `to_rfc3339` écrit « -262143-01-01T00:00:00+00:00 »
/// (1er janvier 262144 av. J.-C.).
pub const SECONDES_MIN: i64 = -8334601228800i64;

/// Plus grand nombre de secondes depuis 1970 que `chrono` sache représenter
/// (31 décembre 262142, 23:59:59).
pub const SECONDES_MAX: i64 = 8210266876799i64;

/// Un instant UTC : secondes depuis le 1er janvier 1970 (hors secondes
/// intercalaires) et nanosecondes dans la seconde, comme `DateTime<Utc>`
/// les expose par `timestamp()` et `timestamp_subsec_nanos()`.
#[derive(Clone, Copy, Debug, PartialEq, Eq, Structural)]
pub struct Horodatage {
    pub secondes: i64,
    pub nanos: u32,
}

impl Horodatage {
    /// L'instant existe pour `chrono` : secondes dans sa plage, nanosecondes
    /// sous la seconde, ou jusqu'à deux secondes pour une seconde intercalaire
    /// (seulement à la dernière seconde d'une minute).
    pub open spec fn valide(self) -> bool {
        &&& SECONDES_MIN <= self.secondes <= SECONDES_MAX
        &&& self.nanos < 2_000_000_000
        &&& (self.nanos >= 1_000_000_000 ==> (self.secondes as int) % 60 == 59)
    }

    /// `self` est strictement antérieur à `autre` (l'ordre de `DateTime<Utc>`).
    pub open spec fn anterieur(self, autre: Horodatage) -> bool {
        ||| self.secondes < autre.secondes
        ||| (self.secondes == autre.secondes && self.nanos < autre.nanos)
    }

    /// Loi : `anterieur` est l'ordre chronologique des instants — une seconde
    /// plus tôt est antérieure, une seconde plus tard ne l'est pas, et dans la
    /// même seconde les nanosecondes départagent.
    pub proof fn loi_anterieur_chronologique(a: Horodatage, b: Horodatage)
        ensures
            a.secondes < b.secondes ==> a.anterieur(b),
            b.secondes < a.secondes ==> !a.anterieur(b),
            a.secondes == b.secondes ==> (a.anterieur(b) <==> a.nanos < b.nanos),
    {
    }

    /// Dit si `self` est strictement antérieur à `autre`.
    pub fn est_anterieur(&self, autre: &Horodatage) -> (r: bool)
        ensures
            r == self.anterieur(*autre),
    {
        self.secondes < autre.secondes || (self.secondes == autre.secondes && self.nanos
            < autre.nanos)
    }

    /// Dit si l'instant existe pour `chrono`.
    pub fn est_valide(&self) -> (r: bool)
        ensures
            r == self.valide(),
    {
        SECONDES_MIN <= self.secondes && self.secondes <= SECONDES_MAX && self.nanos
            < 2_000_000_000 && (self.nanos < 1_000_000_000 || self.secondes % 60 == 59
            || self.secondes % 60 == -1)
    }
}

/// L'écart entre l'horloge du système et l'époque Unix, lu par
/// `UNIX_EPOCH.elapsed()` : `Ok((secondes, nanos))` quand l'horloge est à
/// l'époque ou après, `Err((secondes, nanos))` de combien elle est avant
/// (la durée que porte l'erreur). La valeur dépend de l'horloge ; le contrat
/// dit seulement ce que la documentation de `Duration::subsec_nanos` promet :
/// les nanosecondes restent sous la seconde.
#[verifier::external_body]
fn ecart_horloge() -> (r: Result<(u64, u32), (u64, u32)>)
    ensures
        r matches Ok((_, n)) ==> n < 1_000_000_000,
        r matches Err((_, n)) ==> n < 1_000_000_000,
{
    match std::time::UNIX_EPOCH.elapsed() {
        Ok(d) => Ok((d.as_secs(), d.subsec_nanos())),
        Err(e) => Err((e.duration().as_secs(), e.duration().subsec_nanos())),
    }
}

/// L'instant `(secondes, nanos)` que désigne un écart à l'époque Unix :
/// tel quel après l'époque ; avant, compté en arrière, les nanosecondes
/// ramenées sous la seconde suivante.
pub open spec fn instant_ecart(e: Result<(u64, u32), (u64, u32)>) -> (int, int) {
    match e {
        Ok((s, n)) => (s as int, n as int),
        Err((s, n)) => if n == 0 {
            (-(s as int), 0)
        } else {
            (-(s as int) - 1, 1_000_000_000 - n)
        },
    }
}

/// L'instant ramené dans la plage de `chrono` : au-delà, la borne la plus proche.
pub open spec fn instant_borne(p: (int, int)) -> Horodatage {
    if p.0 > SECONDES_MAX {
        Horodatage { secondes: SECONDES_MAX, nanos: 999_999_999 }
    } else if p.0 < SECONDES_MIN {
        Horodatage { secondes: SECONDES_MIN, nanos: 0 }
    } else {
        Horodatage { secondes: p.0 as i64, nanos: p.1 as u32 }
    }
}

/// L'instant que désigne un écart lu sur l'horloge du système, ramené dans
/// la plage de `chrono`.
pub fn instant_depuis_ecart(e: Result<(u64, u32), (u64, u32)>) -> (r: Horodatage)
    requires
        e matches Ok((_, n)) ==> n < 1_000_000_000,
        e matches Err((_, n)) ==> n < 1_000_000_000,
    ensures
        r == instant_borne(instant_ecart(e)),
        r.valide(),
        r.nanos < 1_000_000_000,
{
    match e {
        Ok((s, n)) => {
            if s > 8210266876799u64 {
                Horodatage { secondes: SECONDES_MAX, nanos: 999_999_999 }
            } else {
                Horodatage { secondes: s as i64, nanos: n }
            }
        },
        Err((s, n)) => {
            if n == 0 {
                if s > 8334601228800u64 {
                    Horodatage { secondes: SECONDES_MIN, nanos: 0 }
                } else {
                    Horodatage { secondes: -(s as i64), nanos: 0 }
                }
            } else if s >= 8334601228800u64 {
                Horodatage { secondes: SECONDES_MIN, nanos: 0 }
            } else {
                Horodatage { secondes: -(s as i64) - 1, nanos: 1_000_000_000 - n }
            }
        },
    }
}

/// L'instant présent, lu sur l'horloge du système (avant l'époque Unix
/// aussi) et ramené dans la plage de `chrono`. Il dépend de l'horloge : le
/// contrat dit ce qui vaut de tout instant rendu.
pub(crate) fn maintenant() -> (r: Horodatage)
    ensures
        r.valide(),
        r.nanos < 1_000_000_000,
{
    instant_depuis_ecart(ecart_horloge())
}

/// Le texte RFC 3339 que `DateTime::<Utc>::to_rfc3339` écrit pour l'instant
/// `(secondes, nanos)`.
pub uninterp spec fn rfc3339_ecrit(secondes: i64, nanos: u32) -> Seq<char>;

/// L'instant `(secondes, nanos)` que `str::parse::<DateTime<Utc>>` lit dans un texte,
/// ou `None` quand il le refuse.
pub uninterp spec fn rfc3339_lu(s: Seq<char>) -> Option<(i64, u32)>;

/// Appelle `DateTime::from_timestamp` puis `DateTime::to_rfc3339`. Le contrat
/// nomme le texte (`rfc3339_ecrit`) sans l'écrire, et dit que `parse` le
/// relit en ce même instant : `to_rfc3339` écrit l'année signée, sur autant
/// de chiffres qu'il faut, et la seconde intercalaire en « :60 », et la
/// lecture RFC 3339 de `chrono` accepte les deux.
#[verifier::external_body]
pub(crate) fn texte_rfc3339(h: Horodatage) -> (r: String)
    requires
        h.valide(),
    ensures
        r@ == rfc3339_ecrit(h.secondes, h.nanos),
        rfc3339_lu(r@) == Some((h.secondes, h.nanos)),
{
    DateTime::from_timestamp(h.secondes, h.nanos).expect("instant valide").to_rfc3339()
}

/// `chrono::ParseError`, l'erreur de lecture d'une date, que la bibliothèque ne lit pas.
#[verifier::external_type_specification]
#[verifier::external_body]
pub struct ExErreurDate(chrono::ParseError);

/// L'instant d'une lecture réussie.
pub open spec fn instant_lu(r: Result<Horodatage, chrono::ParseError>) -> Option<Horodatage> {
    match r {
        Ok(h) => Some(h),
        Err(_) => None,
    }
}

/// Appelle `str::parse::<DateTime<Utc>>` (qui accepte le RFC 3339) et lit
/// l'instant obtenu. Le contrat nomme l'instant lu (`rfc3339_lu`) et dit
/// qu'il est représentable : `parse` refuse un texte dont l'instant UTC sort
/// de la plage de `chrono`, et n'écrit de seconde intercalaire qu'à la
/// dernière seconde d'une minute ; et le texte que `to_rfc3339` écrit d'un
/// instant représentable (année signée sur autant de chiffres qu'il faut,
/// seconde intercalaire en « :60 ») se relit en ce même instant. Quels
/// autres textes `parse` accepte n'est pas décrit.
#[verifier::external_body]
pub(crate) fn lire_rfc3339(s: &str) -> (r: Result<Horodatage, chrono::ParseError>)
    ensures
        r is Ok <==> rfc3339_lu(s@) is Some,
        r matches Ok(h) ==> rfc3339_lu(s@) == Some((h.secondes, h.nanos)) && h.valide(),
        forall|h: Horodatage|
            h.valide() && s@ == #[trigger] rfc3339_ecrit(h.secondes, h.nanos) ==> instant_lu(r)
                == Some(h),
{
    match s.parse::<DateTime<Utc>>() {
        Ok(d) => Ok(Horodatage { secondes: d.timestamp(), nanos: d.timestamp_subsec_nanos() }),
        Err(e) => Err(e),
    }
}

/// Appelle l'affichage (`Display`) de `chrono::ParseError`. Le texte dépend
/// de la sorte d'erreur, que la bibliothèque ne voit pas : rien n'en est dit.
#[verifier::external_body]
pub(crate) fn texte_erreur_date(e: &chrono::ParseError) -> (r: String) {
    e.to_string()
}

/// Le texte que `format("%d/%m/%Y %H:%M")` donne de l'instant `(secondes, nanos)`.
pub uninterp spec fn date_courte(secondes: i64, nanos: u32) -> Seq<char>;

/// Appelle `DateTime::from_timestamp` puis `format("%d/%m/%Y %H:%M")` ;
/// le contrat nomme le texte obtenu.
#[verifier::external_body]
pub(crate) fn formater_date_courte(h: Horodatage) -> (r: String)
    requires
        h.valide(),
    ensures
        r@ == date_courte(h.secondes, h.nanos),
{
    DateTime::from_timestamp(h.secondes, h.nanos).expect("instant valide").format(
        "%d/%m/%Y %H:%M",
    ).to_string()
}

/// Le texte que `format("%Y%m%d_%H%M%S")` donne de l'instant `(secondes, nanos)`.
pub uninterp spec fn date_compacte(secondes: i64, nanos: u32) -> Seq<char>;

/// Appelle `DateTime::from_timestamp` puis `format("%Y%m%d_%H%M%S")` ;
/// le contrat nomme le texte obtenu.
#[verifier::external_body]
pub(crate) fn formater_date_compacte(h: Horodatage) -> (r: String)
    requires
        h.valide(),
    ensures
        r@ == date_compacte(h.secondes, h.nanos),
{
    DateTime::from_timestamp(h.secondes, h.nanos).expect("instant valide").format(
        "%Y%m%d_%H%M%S",
    ).to_string()
}

} // verus!
