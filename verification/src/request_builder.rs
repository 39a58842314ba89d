//! Building update-check requests.
//!
//! A builder gathers, application by application, what a request is to hold:
//! an update check, a ping, and any number of events. The applications stand
//! in the request in the order in which they were first named; each has the
//! cohort with which it was first named.

use vstd::prelude::*;
use crate::protocol::{
    clone_cohort, App, Cohort, Config, Event, InstallSource, Ping, ProtocolApp, Request,
    RequestWrapper, UpdateCheck, HEADER_APP_ID, HEADER_INTERACTIVITY, HEADER_UPDATER_NAME,
    PROTOCOL_V3,
};
use crate::search::{
    first_match, lemma_first_match, lemma_first_match_absent, lemma_first_match_found,
};

verus! {

/// How a request is to be made.
#[derive(Clone, Copy, Debug, PartialEq, Eq)]
pub struct RequestParams {
    /// Why the request is made. This decides some headers, and how the service
    /// treats the request.
    pub source: InstallSource,
    /// Whether the request goes through the configured proxies.
    pub use_configured_proxies: bool,
}

/// The mathematical value of an entry: an application and what is asked or
/// reported of it.
pub struct AppEntrySpec {
    pub app: App,
    pub cohort: Option<Cohort>,
    pub update_check: bool,
    pub ping: Option<Ping>,
    pub events: Seq<Event>,
}

/// An application of the request under construction, with what is asked or
/// reported of it: at most one update check and one ping, any number of events.
#[derive(Debug)]
pub struct AppEntry {
    pub app: App,
    pub cohort: Option<Cohort>,
    pub update_check: bool,
    pub ping: Option<Ping>,
    pub events: Vec<Event>,
}

impl View for AppEntry {
    type V = AppEntrySpec;

    open spec fn view(&self) -> AppEntrySpec {
        AppEntrySpec {
            app: self.app,
            cohort: self.cohort,
            update_check: self.update_check,
            ping: self.ping,
            events: self.events@,
        }
    }
}

/// What one call adds to an application's entry.
#[derive(Clone, Copy, Debug)]
pub enum Addition {
    UpdateCheck,
    Ping(Ping),
    Event(Event),
}

/// The entry with one more thing asked or reported.
pub open spec fn with_addition(entry: AppEntrySpec, addition: Addition) -> AppEntrySpec {
    match addition {
        Addition::UpdateCheck => AppEntrySpec { update_check: true, ..entry },
        Addition::Ping(ping) => AppEntrySpec { ping: Some(ping), ..entry },
        Addition::Event(event) => AppEntrySpec { events: entry.events.push(event), ..entry },
    }
}

/// The entry of an application of which nothing is asked or reported yet.
pub open spec fn fresh_entry(app: App, cohort: Option<Cohort>) -> AppEntrySpec {
    AppEntrySpec { app, cohort, update_check: false, ping: None, events: Seq::empty() }
}

/// Accepts the entry of the application with that id.
pub open spec fn has_id(id: Seq<char>) -> spec_fn(AppEntrySpec) -> bool {
    |entry: AppEntrySpec| entry.app.id@ == id
}

/// The entries after `addition` was made for `app`: made to the entry that
/// the application has already, which keeps its place and its cohort, or
/// else to a new entry at the end.
pub open spec fn with_entry(
    entries: Seq<AppEntrySpec>,
    app: App,
    cohort: Option<Cohort>,
    addition: Addition,
) -> Seq<AppEntrySpec> {
    match first_match(entries, has_id(app.id@)) {
        Some(at) => entries.update(at, with_addition(entries[at], addition)),
        None => entries.push(with_addition(fresh_entry(app, cohort), addition)),
    }
}

impl AppEntry {
    /// The entry of the application `app` in the cohort `cohort`, with nothing
    /// asked or reported yet.
    pub fn new(app: &App, cohort: &Option<Cohort>) -> (entry: AppEntry)
        ensures
            entry@ == fresh_entry(*app, *cohort),
    {
        AppEntry {
            app: app.clone(),
            cohort: clone_cohort(cohort),
            update_check: false,
            ping: None,
            events: Vec::new(),
        }
    }

    /// Makes the addition to the entry.
    fn add(&mut self, addition: Addition)
        ensures
            final(self)@ == with_addition(old(self)@, addition),
    {
        match addition {
            Addition::UpdateCheck => {
                self.update_check = true;
            },
            Addition::Ping(ping) => {
                self.ping = Some(ping);
            },
            Addition::Event(event) => {
                self.events.push(event);
            },
        }
    }
}

/// The application as a request shows the entry: with an update check where
/// one was asked for.
pub open spec fn protocol_app(entry: AppEntry) -> ProtocolApp {
    ProtocolApp {
        id: entry.app.id,
        version: entry.app.version,
        fingerprint: entry.app.fingerprint,
        cohort: entry.cohort,
        update_check: if entry.update_check {
            Some(UpdateCheck { disabled: false })
        } else {
            None
        },
        events: entry.events,
        ping: entry.ping,
    }
}

impl ProtocolApp {
    /// Turns an entry into the application that the request shows.
    pub fn from(entry: AppEntry) -> (app: ProtocolApp)
        ensures
            app == protocol_app(entry),
    {
        ProtocolApp {
            id: entry.app.id,
            version: entry.app.version,
            fingerprint: entry.app.fingerprint,
            cohort: entry.cohort,
            update_check: if entry.update_check {
                Some(UpdateCheck::default())
            } else {
                None
            },
            events: entry.events,
            ping: entry.ping,
        }
    }
}

/// A request before it is put on the wire: where it goes, its headers, and its
/// body as a value.
#[derive(Debug)]
pub struct Intermediate {
    /// The address of the service.
    pub uri: String,
    /// The headers, each a name and a value.
    pub headers: Vec<(String, String)>,
    /// The body.
    pub body: RequestWrapper,
}

/// The name of the header that says what the body is. The name comes from the
/// `http` crate: `http::header::CONTENT_TYPE.as_str()`, which is the text
/// `content-type`.
#[verifier::external_body]
fn content_type_header() -> (name: String)
    ensures
        name@ == "content-type"@,
{
    http::header::CONTENT_TYPE.as_str().to_string()
}

/// What the interactivity header says for a request made for `source`.
pub open spec fn interactivity(source: InstallSource) -> Seq<char> {
    match source {
        InstallSource::OnDemand => "fg"@,
        InstallSource::ScheduledTask => "bg"@,
    }
}

/// The texts of a header.
pub open spec fn header_texts(header: (String, String)) -> (Seq<char>, Seq<char>) {
    (header.0@, header.1@)
}

/// The headers of a request: the type of the body, the updater's name, the
/// interactivity, and the id of the first application, if there is one.
pub open spec fn request_headers(
    config: Config,
    source: InstallSource,
    entries: Seq<AppEntry>,
) -> Seq<(Seq<char>, Seq<char>)> {
    let fixed = seq![
        ("content-type"@, "application/json"@),
        (HEADER_UPDATER_NAME@, config.updater.name@),
        (HEADER_INTERACTIVITY@, interactivity(source)),
    ];
    if entries.len() > 0 {
        fixed.push((HEADER_APP_ID@, entries[0].app.id@))
    } else {
        fixed
    }
}

/// Builds requests. A builder is made with what all requests share and how
/// this request is to be made; then update checks, pings and events are added
/// for applications; then the request is built.
#[derive(Debug)]
pub struct RequestBuilder<'a> {
    config: &'a Config,
    params: RequestParams,
    app_entries: Vec<AppEntry>,
}

impl<'a> RequestBuilder<'a> {
    /// The configuration that the builder was made with.
    pub closed spec fn config(&self) -> Config {
        *self.config
    }

    /// How the request is to be made.
    pub closed spec fn params(&self) -> RequestParams {
        self.params
    }

    /// The applications of the request so far, as they stand in the builder.
    pub closed spec fn app_entries(&self) -> Seq<AppEntry> {
        self.app_entries@
    }

    /// The applications of the request so far, in the order of the request.
    pub open spec fn entries(&self) -> Seq<AppEntrySpec> {
        self.app_entries().map_values(|entry: AppEntry| entry@)
    }

    /// A builder of a request without applications.
    pub fn new(config: &'a Config, params: &RequestParams) -> (builder: Self)
        ensures
            builder.config() == *config,
            builder.params() == *params,
            builder.entries() == Seq::<AppEntrySpec>::empty(),
    {
        let builder = RequestBuilder { config, params: *params, app_entries: Vec::new() };
        assert(builder.entries() =~= Seq::<AppEntrySpec>::empty());
        builder
    }

    /// Makes the addition to the entry of `app`: the entry that the
    /// application has, by its id, or else a new one at the end, in `cohort`.
    fn insert_and_modify_entry(&mut self, app: &App, cohort: &Option<Cohort>, addition: Addition)
        ensures
            final(self).config() == old(self).config(),
            final(self).params() == old(self).params(),
            final(self).entries() == with_entry(old(self).entries(), *app, *cohort, addition),
    {
        let ghost before = self.entries();
        let mut at: usize = 0;
        while at < self.app_entries.len()
            invariant
                at <= self.app_entries@.len(),
                self.entries() == before,
                before == old(self).entries(),
                self.config() == old(self).config(),
                self.params() == old(self).params(),
                forall|j: int| 0 <= j < at ==> !has_id(app.id@)(#[trigger] before[j]),
            decreases self.app_entries@.len() - at,
        {
            if self.app_entries[at].app.id == app.id {
                proof {
                    lemma_first_match_found(before, has_id(app.id@), at as int);
                }
                let mut entry = self.app_entries.remove(at);
                entry.add(addition);
                self.app_entries.insert(at, entry);
                assert(self.entries() =~= with_entry(before, *app, *cohort, addition));
                return ;
            }
            at += 1;
        }
        proof {
            lemma_first_match_absent(before, has_id(app.id@));
        }
        let mut entry = AppEntry::new(app, cohort);
        entry.add(addition);
        self.app_entries.push(entry);
        assert(self.entries() =~= with_entry(before, *app, *cohort, addition));
    }

    /// Asks for an update check for `app`.
    pub fn add_update_check(self, app: &App, cohort: &Option<Cohort>) -> (builder: Self)
        ensures
            builder.config() == self.config(),
            builder.params() == self.params(),
            builder.entries() == with_entry(self.entries(), *app, *cohort, Addition::UpdateCheck),
    {
        let mut builder = self;
        builder.insert_and_modify_entry(app, cohort, Addition::UpdateCheck);
        builder
    }

    /// Adds a ping for `app`. A ping that was added before is replaced.
    pub fn add_ping(self, app: &App, cohort: &Option<Cohort>, ping: &Ping) -> (builder: Self)
        ensures
            builder.config() == self.config(),
            builder.params() == self.params(),
            builder.entries() == with_entry(self.entries(), *app, *cohort, Addition::Ping(*ping)),
    {
        let mut builder = self;
        builder.insert_and_modify_entry(app, cohort, Addition::Ping(*ping));
        builder
    }

    /// Adds an event for `app`, after the events that were added before.
    pub fn add_event(self, app: &App, cohort: &Option<Cohort>, event: &Event) -> (builder: Self)
        ensures
            builder.config() == self.config(),
            builder.params() == self.params(),
            builder.entries() == with_entry(
                self.entries(),
                *app,
                *cohort,
                Addition::Event(*event),
            ),
    {
        let mut builder = self;
        builder.insert_and_modify_entry(app, cohort, Addition::Event(*event));
        builder
    }

    /// Builds the request: its address, its headers and its body.
    pub fn build_intermediate(self) -> (built: Intermediate)
        ensures
            built.uri@ == self.config().service_url@,
            built.headers@.map_values(|header: (String, String)| header_texts(header))
                == request_headers(self.config(), self.params().source, self.app_entries()),
            built.body.request.protocol_version@ == PROTOCOL_V3@,
            built.body.request.updater@ == self.config().updater.name@,
            built.body.request.updater_version@ == self.config().updater.version@,
            built.body.request.install_source == self.params().source,
            built.body.request.is_machine,
            built.body.request.os == self.config().os,
            built.body.request.apps@ == self.app_entries().map_values(
                |entry: AppEntry| protocol_app(entry),
            ),
    {
        let mut headers: Vec<(String, String)> = Vec::new();
        headers.push((content_type_header(), "application/json".to_owned()));
        headers.push((HEADER_UPDATER_NAME.to_owned(), self.config.updater.name.clone()));
        headers.push(
            (
                HEADER_INTERACTIVITY.to_owned(),
                match self.params.source {
                    InstallSource::OnDemand => "fg".to_owned(),
                    InstallSource::ScheduledTask => "bg".to_owned(),
                },
            ),
        );
        if self.app_entries.len() > 0 {
            headers.push((HEADER_APP_ID.to_owned(), self.app_entries[0].app.id.clone()));
        }
        assert(headers@.map_values(|header: (String, String)| header_texts(header))
            =~= request_headers(*self.config, self.params.source, self.app_entries@));
        let ghost entries = self.app_entries@;
        let config = self.config;
        let params = self.params;
        let mut remaining = self.app_entries;
        let mut reversed: Vec<ProtocolApp> = Vec::new();
        while remaining.len() > 0
            invariant
                remaining@ == entries.take(remaining@.len() as int),
                remaining@.len() + reversed@.len() == entries.len(),
                forall|j: int|
                    0 <= j < reversed@.len() ==> reversed@[j] == protocol_app(
                        entries[entries.len() - 1 - j],
                    ),
            decreases remaining@.len(),
        {
            let entry = remaining.pop().unwrap();
            reversed.push(ProtocolApp::from(entry));
        }
        let mut apps: Vec<ProtocolApp> = Vec::new();
        while reversed.len() > 0
            invariant
                apps@.len() + reversed@.len() == entries.len(),
                forall|j: int|
                    0 <= j < reversed@.len() ==> reversed@[j] == protocol_app(
                        entries[entries.len() - 1 - j],
                    ),
                forall|j: int| 0 <= j < apps@.len() ==> apps@[j] == protocol_app(entries[j]),
            decreases reversed@.len(),
        {
            let app = reversed.pop().unwrap();
            apps.push(app);
        }
        assert(apps@ =~= entries.map_values(|entry: AppEntry| protocol_app(entry)));
        Intermediate {
            uri: config.service_url.clone(),
            headers,
            body: RequestWrapper {
                request: Request {
                    protocol_version: PROTOCOL_V3.to_owned(),
                    updater: config.updater.name.clone(),
                    updater_version: config.updater.version.clone(),
                    install_source: params.source,
                    is_machine: true,
                    os: config.os.clone(),
                    apps,
                },
            },
        }
    }
}

/// Asking twice is asking once: a second update check for an application
/// changes nothing.
pub proof fn law_update_check_is_idempotent(
    entries: Seq<AppEntrySpec>,
    app: App,
    cohort: Option<Cohort>,
    other_cohort: Option<Cohort>,
)
    ensures
        with_entry(
            with_entry(entries, app, cohort, Addition::UpdateCheck),
            app,
            other_cohort,
            Addition::UpdateCheck,
        ) == with_entry(entries, app, cohort, Addition::UpdateCheck),
{
    let once = with_entry(entries, app, cohort, Addition::UpdateCheck);
    lemma_entry_position(entries, app, cohort, Addition::UpdateCheck);
    lemma_first_match(entries, has_id(app.id@));
    let at = first_match(once, has_id(app.id@)).unwrap();
    assert(once[at].update_check);
    assert(with_addition(once[at], Addition::UpdateCheck) == once[at]);
    assert(with_entry(once, app, other_cohort, Addition::UpdateCheck) =~= once);
}

/// After an addition for an application, the application's entry stands
/// where it stood before, or at the end if it is new; and it has the
/// application's id.
pub proof fn lemma_entry_position(
    entries: Seq<AppEntrySpec>,
    app: App,
    cohort: Option<Cohort>,
    addition: Addition,
)
    ensures
        first_match(with_entry(entries, app, cohort, addition), has_id(app.id@)) == Some(
            match first_match(entries, has_id(app.id@)) {
                Some(at) => at,
                None => entries.len() as int,
            },
        ),
{
    let after = with_entry(entries, app, cohort, addition);
    lemma_first_match(entries, has_id(app.id@));
    match first_match(entries, has_id(app.id@)) {
        Some(at) => {
            assert forall|j: int| 0 <= j < at implies !has_id(app.id@)(#[trigger] after[j]) by {
                assert(after[j] == entries[j]);
            }
            lemma_first_match_found(after, has_id(app.id@), at);
        },
        None => {
            assert forall|j: int| 0 <= j < entries.len() implies !has_id(app.id@)(
                #[trigger] after[j],
            ) by {
                assert(after[j] == entries[j]);
            }
            lemma_first_match_found(after, has_id(app.id@), entries.len() as int);
        },
    }
}

/// The order of an update check and a ping does not matter: for one
/// application in one cohort, either order gives the same entries.
pub proof fn law_update_check_and_ping_commute(
    entries: Seq<AppEntrySpec>,
    app: App,
    cohort: Option<Cohort>,
    ping: Ping,
)
    ensures
        with_entry(
            with_entry(entries, app, cohort, Addition::UpdateCheck),
            app,
            cohort,
            Addition::Ping(ping),
        ) == with_entry(
            with_entry(entries, app, cohort, Addition::Ping(ping)),
            app,
            cohort,
            Addition::UpdateCheck,
        ),
{
    lemma_entry_position(entries, app, cohort, Addition::UpdateCheck);
    lemma_entry_position(entries, app, cohort, Addition::Ping(ping));
    lemma_first_match(entries, has_id(app.id@));
    let checked = with_entry(entries, app, cohort, Addition::UpdateCheck);
    let pinged = with_entry(entries, app, cohort, Addition::Ping(ping));
    let at = first_match(checked, has_id(app.id@)).unwrap();
    assert(first_match(pinged, has_id(app.id@)) == Some(at));
    assert(with_addition(checked[at], Addition::Ping(ping)) == with_addition(
        pinged[at],
        Addition::UpdateCheck,
    ));
    assert(with_entry(checked, app, cohort, Addition::Ping(ping)) =~= with_entry(
        pinged,
        app,
        cohort,
        Addition::UpdateCheck,
    ));
}

/// The cohort of an application is the one that it was first named with: an
/// addition for an application that has an entry leaves the entry's cohort,
/// and every other entry, as it was.
pub proof fn law_first_cohort_stays(
    entries: Seq<AppEntrySpec>,
    app: App,
    cohort: Option<Cohort>,
    addition: Addition,
)
    requires
        first_match(entries, has_id(app.id@)) is Some,
    ensures
        with_entry(entries, app, cohort, addition).len() == entries.len(),
        forall|i: int|
            0 <= i < entries.len() ==> {
                &&& (#[trigger] with_entry(entries, app, cohort, addition)[i]).app == entries[i].app
                &&& with_entry(entries, app, cohort, addition)[i].cohort == entries[i].cohort
                &&& i != first_match(entries, has_id(app.id@)).unwrap() ==> with_entry(
                    entries,
                    app,
                    cohort,
                    addition,
                )[i] == entries[i]
            },
{
    lemma_first_match(entries, has_id(app.id@));
}

} // verus!
