//! Time zones that are known to be valid.

use vstd::prelude::*;

use crate::text::{trim, trimmed};

verus! {

/// `chrono_tz::Tz`, carried as it is.
#[verifier::external_type_specification]
#[verifier::external_body]
pub struct ExTz(chrono_tz::Tz);

/// The zone that `chrono_tz::Tz::from_str` gives for a text: the zone of that name in
/// the IANA database that the crate was built from. `None` where there is none.
pub uninterp spec fn zone_called(name: Seq<char>) -> Option<chrono_tz::Tz>;

/// Looks a zone up by its name with `chrono_tz::Tz::from_str`, and asks
/// `chrono_tz::Tz::name` for its name. Whether there is one, and which, is a function of
/// the text alone, which `zone_called` names; a zone is found under exactly its name.
#[verifier::external_body]
fn find_zone(name: &str) -> (r: Option<(chrono_tz::Tz, &'static str)>)
    ensures
        match r {
            Some(found) => zone_called(name@) == Some(found.0) && found.1@ == name@,
            None => zone_called(name@) is None,
        },
{
    name.parse::<chrono_tz::Tz>().ok().map(|tz| (tz, tz.name()))
}

/// An IANA time zone that was valid when it was read.
#[derive(Debug, Clone, Copy, PartialEq, Eq)]
pub struct ValidTimezone {
    zone: chrono_tz::Tz,
    name: &'static str,
}

/// What a valid time zone holds: the zone, and its name.
pub struct ZoneView {
    pub zone: chrono_tz::Tz,
    pub name: Seq<char>,
}

impl View for ValidTimezone {
    type V = ZoneView;

    closed spec fn view(&self) -> ZoneView {
        ZoneView { zone: self.zone, name: self.name@ }
    }
}

/// The zone that a text names; `None` where it names none. White space around the name
/// does not count.
pub open spec fn zone_named(s: Seq<char>) -> Option<ZoneView> {
    if trimmed(s).len() == 0 {
        None
    } else {
        match zone_called(trimmed(s)) {
            Some(zone) => Some(ZoneView { zone, name: trimmed(s) }),
            None => None,
        }
    }
}

/// What an optional zone holds.
pub open spec fn zone_view(z: Option<ValidTimezone>) -> Option<ZoneView> {
    match z {
        Some(z) => Some(z@),
        None => None,
    }
}

impl ValidTimezone {
    /// Reads the name of a time zone. White space around it does not count; an
    /// empty or unknown name gives `None`.
    pub fn parse(s: &str) -> (r: Option<ValidTimezone>)
        ensures
            zone_view(r) == zone_named(s@),
    {
        let name = trim(s);
        if name.is_empty() {
            return None;
        }
        match find_zone(name) {
            Some((zone, name)) => Some(ValidTimezone { zone, name }),
            None => None,
        }
    }

    /// The zone itself.
    pub fn tz(&self) -> (r: chrono_tz::Tz)
        ensures
            r == self@.zone,
    {
        self.zone
    }

    /// The name of the zone.
    pub fn name(&self) -> (r: &str)
        ensures
            r@ == self@.name,
    {
        self.name
    }
}

/// Reads an optional time zone from stored data: what is absent, empty or unknown
/// becomes `None`, so that one bad name does not lose the record it stands in.
pub fn lenient_timezone(raw: Option<&str>) -> (r: Option<ValidTimezone>)
    ensures
        zone_view(r) == match raw {
            Some(s) => zone_named(s@),
            None => None,
        },
{
    match raw {
        Some(s) => ValidTimezone::parse(s),
        None => None,
    }
}

/// The name of a valid time zone names it: reading it again gives the same zone, under
/// the same name.
pub proof fn zone_name_reads_back(s: Seq<char>)
    ensures
        zone_named(s) matches Some(z) ==> zone_named(z.name) == Some(z),
{
    crate::text::trimmed_twice(s);
}

/// The white space around the name of a zone does not count, and a name that is nothing
/// else names none.
pub proof fn white_space_around_a_zone_does_not_count(s: Seq<char>)
    ensures
        trimmed(s).len() > 0 ==> zone_named(s) == zone_named(trimmed(s)),
        trimmed(s).len() == 0 ==> zone_named(s) is None,
        zone_named(s) matches Some(z) ==> z.name == trimmed(s) && zone_called(z.name) == Some(
            z.zone,
        ),
        zone_called(trimmed(s)) is Some && trimmed(s).len() > 0 ==> zone_named(s) is Some,
{
    crate::text::trimmed_twice(s);
}

} // verus!
