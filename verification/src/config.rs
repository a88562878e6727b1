//! The data model: site configuration, the shared pattern rule set with its
//! pager code table, the structured record that extraction produces, and the
//! configuration of the calendar export job.

use vstd::prelude::*;

verus! {

/// One entry of the pager code table: a trigger phrase and the pager code
/// with its sub-code that the phrase pages.
pub struct Ric {
    pub text: String,
    pub ric: String,
    pub subric: String,
}

/// The mathematical value of a [`Ric`].
pub struct RicV {
    pub text: Seq<char>,
    pub ric: Seq<char>,
    pub subric: Seq<char>,
}

impl View for Ric {
    type V = RicV;

    open spec fn view(&self) -> RicV {
        RicV { text: self.text@, ric: self.ric@, subric: self.subric@ }
    }
}

impl Ric {
    /// A deep copy.
    pub fn duplicate(&self) -> (r: Ric)
        ensures
            r@ == self@,
    {
        Ric { text: self.text.clone(), ric: self.ric.clone(), subric: self.subric.clone() }
    }
}

/// The pattern rule set shared by all sites: one single-capture-group pattern
/// per semantic field, the pager code table, and the fixed width to which
/// pager codes are zero-padded.
pub struct PatternRules {
    pub regex_einsatznrleitstelle: String,
    pub regex_einsatzstichwort: String,
    pub regex_strasse: String,
    pub regex_hausnummer: String,
    pub regex_ort: String,
    pub regex_ortsteil: String,
    pub regex_koordinaten: String,
    pub regex_objektname: String,
    pub regex_zusatzinfo: String,
    pub rics: Vec<Ric>,
    pub ric_width: usize,
}

/// The mathematical value of a [`PatternRules`].
pub struct RulesV {
    pub regex_einsatznrleitstelle: Seq<char>,
    pub regex_einsatzstichwort: Seq<char>,
    pub regex_strasse: Seq<char>,
    pub regex_hausnummer: Seq<char>,
    pub regex_ort: Seq<char>,
    pub regex_ortsteil: Seq<char>,
    pub regex_koordinaten: Seq<char>,
    pub regex_objektname: Seq<char>,
    pub regex_zusatzinfo: Seq<char>,
    pub rics: Seq<RicV>,
    pub ric_width: nat,
}

impl View for PatternRules {
    type V = RulesV;

    open spec fn view(&self) -> RulesV {
        RulesV {
            regex_einsatznrleitstelle: self.regex_einsatznrleitstelle@,
            regex_einsatzstichwort: self.regex_einsatzstichwort@,
            regex_strasse: self.regex_strasse@,
            regex_hausnummer: self.regex_hausnummer@,
            regex_ort: self.regex_ort@,
            regex_ortsteil: self.regex_ortsteil@,
            regex_koordinaten: self.regex_koordinaten@,
            regex_objektname: self.regex_objektname@,
            regex_zusatzinfo: self.regex_zusatzinfo@,
            rics: self.rics.deep_view(),
            ric_width: self.ric_width as nat,
        }
    }
}

/// One monitored location: its identifier, mailbox host, port and
/// credentials, and the alerting-vendor API key of that site. Immutable for
/// the process lifetime.
pub struct Standort {
    pub standort: String,
    pub imap_server: String,
    pub imap_port: u16,
    pub imap_user: String,
    pub imap_password: String,
    pub fireplan_api_key: String,
}

/// The structured output of extraction for one message: the matched value
/// (or the empty string) for each semantic field, and the pager entries
/// matched on the body's lines.
pub struct ParsedData {
    pub rics: Vec<Ric>,
    pub einsatznrlst: String,
    pub strasse: String,
    pub hausnummer: String,
    pub ort: String,
    pub ortsteil: String,
    pub objektname: String,
    pub koordinaten: String,
    pub einsatzstichwort: String,
    pub zusatzinfo: String,
}

/// The mathematical value of a [`ParsedData`].
pub struct ParsedV {
    pub rics: Seq<RicV>,
    pub einsatznrlst: Seq<char>,
    pub strasse: Seq<char>,
    pub hausnummer: Seq<char>,
    pub ort: Seq<char>,
    pub ortsteil: Seq<char>,
    pub objektname: Seq<char>,
    pub koordinaten: Seq<char>,
    pub einsatzstichwort: Seq<char>,
    pub zusatzinfo: Seq<char>,
}

impl View for ParsedData {
    type V = ParsedV;

    open spec fn view(&self) -> ParsedV {
        ParsedV {
            rics: self.rics.deep_view(),
            einsatznrlst: self.einsatznrlst@,
            strasse: self.strasse@,
            hausnummer: self.hausnummer@,
            ort: self.ort@,
            ortsteil: self.ortsteil@,
            objektname: self.objektname@,
            koordinaten: self.koordinaten@,
            einsatzstichwort: self.einsatzstichwort@,
            zusatzinfo: self.zusatzinfo@,
        }
    }
}

impl DeepView for Ric {
    type V = RicV;

    open spec fn deep_view(&self) -> RicV {
        self.view()
    }
}

/// One calendar of the export job's configuration.
pub struct KonfigKalender {
    name: String,
    standort: String,
    praefix: String,
    ical_name: String,
    ical_beschreibung: String,
}

/// The mathematical value of a [`KonfigKalender`].
pub struct KalenderV {
    pub name: Seq<char>,
    pub standort: Seq<char>,
    pub praefix: Seq<char>,
    pub ical_name: Seq<char>,
    pub ical_beschreibung: Seq<char>,
}

impl View for KonfigKalender {
    type V = KalenderV;

    closed spec fn view(&self) -> KalenderV {
        KalenderV {
            name: self.name@,
            standort: self.standort@,
            praefix: self.praefix@,
            ical_name: self.ical_name@,
            ical_beschreibung: self.ical_beschreibung@,
        }
    }
}

impl DeepView for KonfigKalender {
    type V = KalenderV;

    open spec fn deep_view(&self) -> KalenderV {
        self.view()
    }
}

impl KonfigKalender {
    pub fn new(
        name: String,
        standort: String,
        praefix: String,
        ical_name: String,
        ical_beschreibung: String,
    ) -> (r: KonfigKalender)
        ensures
            r@.name == name@,
            r@.standort == standort@,
            r@.praefix == praefix@,
            r@.ical_name == ical_name@,
            r@.ical_beschreibung == ical_beschreibung@,
    {
        KonfigKalender { name, standort, praefix, ical_name, ical_beschreibung }
    }

    pub fn name(&self) -> (r: &String)
        ensures
            r@ == self@.name,
    {
        &self.name
    }

    pub fn standort(&self) -> (r: &String)
        ensures
            r@ == self@.standort,
    {
        &self.standort
    }

    pub fn praefix(&self) -> (r: &String)
        ensures
            r@ == self@.praefix,
    {
        &self.praefix
    }

    pub fn ical_name(&self) -> (r: &String)
        ensures
            r@ == self@.ical_name,
    {
        &self.ical_name
    }

    pub fn ical_beschreibung(&self) -> (r: &String)
        ensures
            r@ == self@.ical_beschreibung,
    {
        &self.ical_beschreibung
    }
}

/// The configuration of the calendar export job: the API key of the
/// administration site, the prefix and target folder for the generated
/// files, the poll interval, and the calendars to export.
pub struct Configuration {
    fireplan_api_key: String,
    praefix_gesamtwehr: String,
    zielordner: String,
    intervall_sekunden: u16,
    kalender: Vec<KonfigKalender>,
}

/// The mathematical value of a [`Configuration`].
pub struct ConfigurationV {
    pub fireplan_api_key: Seq<char>,
    pub praefix_gesamtwehr: Seq<char>,
    pub zielordner: Seq<char>,
    pub intervall_sekunden: u16,
    pub kalender: Seq<KalenderV>,
}

impl View for Configuration {
    type V = ConfigurationV;

    closed spec fn view(&self) -> ConfigurationV {
        ConfigurationV {
            fireplan_api_key: self.fireplan_api_key@,
            praefix_gesamtwehr: self.praefix_gesamtwehr@,
            zielordner: self.zielordner@,
            intervall_sekunden: self.intervall_sekunden,
            kalender: self.kalender.deep_view(),
        }
    }
}

impl Configuration {
    pub fn new(
        fireplan_api_key: String,
        praefix_gesamtwehr: String,
        zielordner: String,
        intervall_sekunden: u16,
        kalender: Vec<KonfigKalender>,
    ) -> (r: Configuration)
        ensures
            r@.fireplan_api_key == fireplan_api_key@,
            r@.praefix_gesamtwehr == praefix_gesamtwehr@,
            r@.zielordner == zielordner@,
            r@.intervall_sekunden == intervall_sekunden,
            r@.kalender == kalender.deep_view(),
    {
        Configuration {
            fireplan_api_key,
            praefix_gesamtwehr,
            zielordner,
            intervall_sekunden,
            kalender,
        }
    }

    pub fn fireplan_api_key(&self) -> (r: &String)
        ensures
            r@ == self@.fireplan_api_key,
    {
        &self.fireplan_api_key
    }

    pub fn praefix_gesamtwehr(&self) -> (r: &String)
        ensures
            r@ == self@.praefix_gesamtwehr,
    {
        &self.praefix_gesamtwehr
    }

    pub fn zielordner(&self) -> (r: &String)
        ensures
            r@ == self@.zielordner,
    {
        &self.zielordner
    }

    pub fn intervall_sekunden(&self) -> (r: u16)
        ensures
            r == self@.intervall_sekunden,
    {
        self.intervall_sekunden
    }

    pub fn kalender(&self) -> (r: &Vec<KonfigKalender>)
        ensures
            r.deep_view() == self@.kalender,
    {
        &self.kalender
    }
}

} // verus!
