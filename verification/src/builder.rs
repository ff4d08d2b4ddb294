//! Choosing the adapters of a router: which providers are enabled, and for
//! each one whether it calls the provider or serves offline mock data.
use vstd::prelude::*;
use vstd::string::*;
use crate::adapters::{capabilities_for, provider_capabilities};
use crate::http_client::HttpAuth;
use crate::routing::{reg_lookup, SourceRegistration, SourceRouter};
use crate::source::ProviderId;

verus! {

/// How one adapter of a router is to be built.
#[derive(Debug, Clone)]
pub enum AdapterChoice {
    /// The provider's adapter over the offline transport with mock data.
    Mock(ProviderId),
    /// Polygon over the network, authenticated as given.
    Polygon(HttpAuth),
    /// Alpaca over the network with its key pair.
    Alpaca { api_key: String, secret_key: String },
    /// Alpha Vantage over the network with its key.
    Alphavantage(String),
    /// Yahoo over the network, authenticated as given.
    Yahoo(HttpAuth),
}

/// What an adapter choice amounts to.
pub enum ChoiceSpec {
    Mock(ProviderId),
    PolygonKey(Seq<char>),
    AlpacaKeys(Seq<char>, Seq<char>),
    AlphavantageKey(Seq<char>),
    YahooAnonymous,
}

/// Whether `c` is the choice `s` describes: Polygon sends its key in an
/// `X-API-Key` header and Yahoo an empty cookie.
pub open spec fn choice_is(c: AdapterChoice, s: ChoiceSpec) -> bool {
    match (c, s) {
        (AdapterChoice::Mock(p), ChoiceSpec::Mock(q)) => p == q,
        (AdapterChoice::Polygon(auth), ChoiceSpec::PolygonKey(k)) => match auth {
            HttpAuth::Header { name, value } => name@ == "X-API-Key"@ && value@ == k,
            _ => false,
        },
        (AdapterChoice::Alpaca { api_key, secret_key }, ChoiceSpec::AlpacaKeys(a, s)) => api_key@ == a
            && secret_key@ == s,
        (AdapterChoice::Alphavantage(key), ChoiceSpec::AlphavantageKey(k)) => key@ == k,
        (AdapterChoice::Yahoo(auth), ChoiceSpec::YahooAnonymous) => match auth {
            HttpAuth::Cookie(c) => c@.len() == 0,
            _ => false,
        },
        _ => false,
    }
}

/// The provider an adapter choice serves.
pub open spec fn choice_provider(c: AdapterChoice) -> ProviderId {
    match c {
        AdapterChoice::Mock(p) => p,
        AdapterChoice::Polygon(_) => ProviderId::Polygon,
        AdapterChoice::Alpaca { .. } => ProviderId::Alpaca,
        AdapterChoice::Alphavantage(_) => ProviderId::Alphavantage,
        AdapterChoice::Yahoo(_) => ProviderId::Yahoo,
    }
}

fn opt_view(o: &Option<String>) -> (r: Option<String>)
    ensures
        match r {
            Some(s) => o matches Some(t) && s@ == t@,
            None => o is None,
        },
{
    match o {
        Some(s) => Some(s.clone()),
        None => None,
    }
}

/// Builder for the adapters of a source router.
#[derive(Debug)]
pub struct SourceRouterBuilder {
    use_mock: bool,
    polygon_api_key: Option<String>,
    alpaca_api_key: Option<String>,
    alpaca_secret_key: Option<String>,
    alphavantage_api_key: Option<String>,
    enable_polygon: bool,
    enable_alpaca: bool,
    enable_alphavantage: bool,
    enable_yahoo: bool,
}

/// The view of an optional string.
pub open spec fn opt_seq(o: Option<String>) -> Option<Seq<char>> {
    match o {
        Some(s) => Some(s@),
        None => None,
    }
}

impl SourceRouterBuilder {
    pub closed spec fn mock(&self) -> bool {
        self.use_mock
    }

    pub closed spec fn polygon_key(&self) -> Option<Seq<char>> {
        opt_seq(self.polygon_api_key)
    }

    pub closed spec fn alpaca_key(&self) -> Option<Seq<char>> {
        opt_seq(self.alpaca_api_key)
    }

    pub closed spec fn alpaca_secret(&self) -> Option<Seq<char>> {
        opt_seq(self.alpaca_secret_key)
    }

    pub closed spec fn alphavantage_key(&self) -> Option<Seq<char>> {
        opt_seq(self.alphavantage_api_key)
    }

    /// Which providers are enabled, in order Polygon, Alpaca, Alpha Vantage, Yahoo.
    pub closed spec fn enabled(&self) -> (bool, bool, bool, bool) {
        (self.enable_polygon, self.enable_alpaca, self.enable_alphavantage, self.enable_yahoo)
    }

    /// The adapters this builder makes, in provider order: each enabled
    /// provider calls out when mock mode is off and its keys are set (Yahoo
    /// needs none), else serves mock data; with nothing enabled, all four
    /// mock adapters.
    pub open spec fn plan(&self) -> Seq<ChoiceSpec> {
        let (p, a, v, y) = self.enabled();
        let polygon: Seq<ChoiceSpec> = if !p {
            seq![]
        } else if !self.mock() && self.polygon_key() is Some {
            seq![ChoiceSpec::PolygonKey(self.polygon_key().unwrap())]
        } else {
            seq![ChoiceSpec::Mock(ProviderId::Polygon)]
        };
        let alpaca: Seq<ChoiceSpec> = if !a {
            seq![]
        } else if !self.mock() && self.alpaca_key() is Some && self.alpaca_secret() is Some {
            seq![ChoiceSpec::AlpacaKeys(self.alpaca_key().unwrap(), self.alpaca_secret().unwrap())]
        } else {
            seq![ChoiceSpec::Mock(ProviderId::Alpaca)]
        };
        let alphavantage: Seq<ChoiceSpec> = if !v {
            seq![]
        } else if !self.mock() && self.alphavantage_key() is Some {
            seq![ChoiceSpec::AlphavantageKey(self.alphavantage_key().unwrap())]
        } else {
            seq![ChoiceSpec::Mock(ProviderId::Alphavantage)]
        };
        let yahoo: Seq<ChoiceSpec> = if !y {
            seq![]
        } else if !self.mock() {
            seq![ChoiceSpec::YahooAnonymous]
        } else {
            seq![ChoiceSpec::Mock(ProviderId::Yahoo)]
        };
        if !p && !a && !v && !y {
            seq![
                ChoiceSpec::Mock(ProviderId::Polygon),
                ChoiceSpec::Mock(ProviderId::Alpaca),
                ChoiceSpec::Mock(ProviderId::Alphavantage),
                ChoiceSpec::Mock(ProviderId::Yahoo),
            ]
        } else {
            polygon + alpaca + alphavantage + yahoo
        }
    }

    /// Real clients, no keys, every provider enabled.
    pub fn new() -> (b: Self)
        ensures
            !b.mock(),
            b.polygon_key() is None,
            b.alpaca_key() is None,
            b.alpaca_secret() is None,
            b.alphavantage_key() is None,
            b.enabled() == (true, true, true, true),
    {
        SourceRouterBuilder {
            use_mock: false,
            polygon_api_key: None,
            alpaca_api_key: None,
            alpaca_secret_key: None,
            alphavantage_api_key: None,
            enable_polygon: true,
            enable_alpaca: true,
            enable_alphavantage: true,
            enable_yahoo: true,
        }
    }

    /// Every adapter serves offline mock data.
    pub fn with_mock_mode(self) -> (b: Self)
        ensures
            b.mock(),
            b.polygon_key() == self.polygon_key(),
            b.alpaca_key() == self.alpaca_key(),
            b.alpaca_secret() == self.alpaca_secret(),
            b.alphavantage_key() == self.alphavantage_key(),
            b.enabled() == self.enabled(),
    {
        let mut b = self;
        b.use_mock = true;
        b
    }

    /// Real clients with the keys found in the environment (the caller reads
    /// the environment); a missing key is recorded as missing.
    pub fn with_real_client_keys(
        self,
        polygon: Option<String>,
        alpaca: Option<String>,
        alpaca_secret: Option<String>,
        alphavantage: Option<String>,
    ) -> (b: Self)
        ensures
            !b.mock(),
            b.polygon_key() == opt_seq(polygon),
            b.alpaca_key() == opt_seq(alpaca),
            b.alpaca_secret() == opt_seq(alpaca_secret),
            b.alphavantage_key() == opt_seq(alphavantage),
            b.enabled() == self.enabled(),
    {
        let mut b = self;
        b.use_mock = false;
        b.polygon_api_key = polygon;
        b.alpaca_api_key = alpaca;
        b.alpaca_secret_key = alpaca_secret;
        b.alphavantage_api_key = alphavantage;
        b
    }

    /// Sets the Polygon key.
    pub fn with_polygon_key(self, key: &str) -> (b: Self)
        ensures
            b.mock() == self.mock(),
            b.polygon_key() == Some(key@),
            b.alpaca_key() == self.alpaca_key(),
            b.alpaca_secret() == self.alpaca_secret(),
            b.alphavantage_key() == self.alphavantage_key(),
            b.enabled() == self.enabled(),
    {
        let mut b = self;
        b.polygon_api_key = Some(String::from_str(key));
        b
    }

    /// Sets the Alpaca key pair.
    pub fn with_alpaca_keys(self, api_key: &str, secret_key: &str) -> (b: Self)
        ensures
            b.mock() == self.mock(),
            b.polygon_key() == self.polygon_key(),
            b.alpaca_key() == Some(api_key@),
            b.alpaca_secret() == Some(secret_key@),
            b.alphavantage_key() == self.alphavantage_key(),
            b.enabled() == self.enabled(),
    {
        let mut b = self;
        b.alpaca_api_key = Some(String::from_str(api_key));
        b.alpaca_secret_key = Some(String::from_str(secret_key));
        b
    }

    /// Sets the Alpha Vantage key.
    pub fn with_alphavantage_key(self, key: &str) -> (b: Self)
        ensures
            b.mock() == self.mock(),
            b.polygon_key() == self.polygon_key(),
            b.alpaca_key() == self.alpaca_key(),
            b.alpaca_secret() == self.alpaca_secret(),
            b.alphavantage_key() == Some(key@),
            b.enabled() == self.enabled(),
    {
        let mut b = self;
        b.alphavantage_api_key = Some(String::from_str(key));
        b
    }

    /// Enables or disables Polygon.
    pub fn with_polygon_enabled(self, enabled: bool) -> (b: Self)
        ensures
            b.mock() == self.mock(),
            b.polygon_key() == self.polygon_key(),
            b.alpaca_key() == self.alpaca_key(),
            b.alpaca_secret() == self.alpaca_secret(),
            b.alphavantage_key() == self.alphavantage_key(),
            b.enabled() == (enabled, self.enabled().1, self.enabled().2, self.enabled().3),
    {
        let mut b = self;
        b.enable_polygon = enabled;
        b
    }

    /// Enables or disables Alpaca.
    pub fn with_alpaca_enabled(self, enabled: bool) -> (b: Self)
        ensures
            b.mock() == self.mock(),
            b.polygon_key() == self.polygon_key(),
            b.alpaca_key() == self.alpaca_key(),
            b.alpaca_secret() == self.alpaca_secret(),
            b.alphavantage_key() == self.alphavantage_key(),
            b.enabled() == (self.enabled().0, enabled, self.enabled().2, self.enabled().3),
    {
        let mut b = self;
        b.enable_alpaca = enabled;
        b
    }

    /// Enables or disables Alpha Vantage.
    pub fn with_alphavantage_enabled(self, enabled: bool) -> (b: Self)
        ensures
            b.mock() == self.mock(),
            b.polygon_key() == self.polygon_key(),
            b.alpaca_key() == self.alpaca_key(),
            b.alpaca_secret() == self.alpaca_secret(),
            b.alphavantage_key() == self.alphavantage_key(),
            b.enabled() == (self.enabled().0, self.enabled().1, enabled, self.enabled().3),
    {
        let mut b = self;
        b.enable_alphavantage = enabled;
        b
    }

    /// Enables or disables Yahoo.
    pub fn with_yahoo_enabled(self, enabled: bool) -> (b: Self)
        ensures
            b.mock() == self.mock(),
            b.polygon_key() == self.polygon_key(),
            b.alpaca_key() == self.alpaca_key(),
            b.alpaca_secret() == self.alpaca_secret(),
            b.alphavantage_key() == self.alphavantage_key(),
            b.enabled() == (self.enabled().0, self.enabled().1, self.enabled().2, enabled),
    {
        let mut b = self;
        b.enable_yahoo = enabled;
        b
    }

    /// The adapters to build, as `plan` describes.
    pub fn build(self) -> (r: Vec<AdapterChoice>)
        ensures
            r@.len() == self.plan().len(),
            forall|i: int| 0 <= i < r@.len() ==> choice_is(#[trigger] r@[i], self.plan()[i]),
    {
        let ghost plan = self.plan();
        let mut out: Vec<AdapterChoice> = Vec::new();
        if !self.enable_polygon && !self.enable_alpaca && !self.enable_alphavantage && !self.enable_yahoo {
            out.push(AdapterChoice::Mock(ProviderId::Polygon));
            out.push(AdapterChoice::Mock(ProviderId::Alpaca));
            out.push(AdapterChoice::Mock(ProviderId::Alphavantage));
            out.push(AdapterChoice::Mock(ProviderId::Yahoo));
            return out;
        }
        let ghost p_part: Seq<ChoiceSpec> = if !self.enable_polygon {
            seq![]
        } else if !self.use_mock && self.polygon_api_key is Some {
            seq![ChoiceSpec::PolygonKey(self.polygon_key().unwrap())]
        } else {
            seq![ChoiceSpec::Mock(ProviderId::Polygon)]
        };
        if self.enable_polygon {
            let choice = if self.use_mock {
                AdapterChoice::Mock(ProviderId::Polygon)
            } else {
                match opt_view(&self.polygon_api_key) {
                    Some(key) => AdapterChoice::Polygon(
                        HttpAuth::Header { name: String::from_str("X-API-Key"), value: key },
                    ),
                    None => AdapterChoice::Mock(ProviderId::Polygon),
                }
            };
            out.push(choice);
        }
        assert(out@.len() == p_part.len());
        assert(forall|i: int| 0 <= i < out@.len() ==> choice_is(#[trigger] out@[i], p_part[i]));
        let ghost a_part: Seq<ChoiceSpec> = if !self.enable_alpaca {
            seq![]
        } else if !self.use_mock && self.alpaca_api_key is Some && self.alpaca_secret_key is Some {
            seq![ChoiceSpec::AlpacaKeys(self.alpaca_key().unwrap(), self.alpaca_secret().unwrap())]
        } else {
            seq![ChoiceSpec::Mock(ProviderId::Alpaca)]
        };
        let ghost before = out@;
        if self.enable_alpaca {
            let choice = if self.use_mock {
                AdapterChoice::Mock(ProviderId::Alpaca)
            } else {
                match (opt_view(&self.alpaca_api_key), opt_view(&self.alpaca_secret_key)) {
                    (Some(api_key), Some(secret_key)) => AdapterChoice::Alpaca { api_key, secret_key },
                    _ => AdapterChoice::Mock(ProviderId::Alpaca),
                }
            };
            out.push(choice);
        }
        assert(forall|i: int| 0 <= i < out@.len() ==> choice_is(#[trigger] out@[i], (p_part + a_part)[i])) by {
            assert forall|i: int| 0 <= i < out@.len() implies choice_is(#[trigger] out@[i], (p_part + a_part)[i]) by {
                if i < before.len() {
                    assert(out@[i] == before[i]);
                }
            }
        }
        let ghost v_part: Seq<ChoiceSpec> = if !self.enable_alphavantage {
            seq![]
        } else if !self.use_mock && self.alphavantage_api_key is Some {
            seq![ChoiceSpec::AlphavantageKey(self.alphavantage_key().unwrap())]
        } else {
            seq![ChoiceSpec::Mock(ProviderId::Alphavantage)]
        };
        let ghost before = out@;
        if self.enable_alphavantage {
            let choice = if self.use_mock {
                AdapterChoice::Mock(ProviderId::Alphavantage)
            } else {
                match opt_view(&self.alphavantage_api_key) {
                    Some(key) => AdapterChoice::Alphavantage(key),
                    None => AdapterChoice::Mock(ProviderId::Alphavantage),
                }
            };
            out.push(choice);
        }
        assert(forall|i: int| 0 <= i < out@.len() ==> choice_is(#[trigger] out@[i], (p_part + a_part + v_part)[i])) by {
            assert forall|i: int| 0 <= i < out@.len() implies choice_is(#[trigger] out@[i], (p_part + a_part + v_part)[i]) by {
                if i < before.len() {
                    assert(out@[i] == before[i]);
                }
            }
        }
        let ghost y_part: Seq<ChoiceSpec> = if !self.enable_yahoo {
            seq![]
        } else if !self.use_mock {
            seq![ChoiceSpec::YahooAnonymous]
        } else {
            seq![ChoiceSpec::Mock(ProviderId::Yahoo)]
        };
        let ghost before = out@;
        if self.enable_yahoo {
            let choice = if self.use_mock {
                AdapterChoice::Mock(ProviderId::Yahoo)
            } else {
                AdapterChoice::Yahoo(HttpAuth::Cookie(String::new()))
            };
            out.push(choice);
        }
        assert(forall|i: int| 0 <= i < out@.len() ==> choice_is(#[trigger] out@[i], (p_part + a_part + v_part + y_part)[i])) by {
            assert forall|i: int| 0 <= i < out@.len() implies choice_is(#[trigger] out@[i], (p_part + a_part + v_part + y_part)[i]) by {
                if i < before.len() {
                    assert(out@[i] == before[i]);
                }
            }
        }
        proof {
            reveal_strlit("X-API-Key");
            assert(plan =~= p_part + a_part + v_part + y_part);
        }
        out
    }
}

/// The registration of the adapter a choice builds.
pub fn registration_for(choice: &AdapterChoice) -> (r: SourceRegistration)
    ensures
        r.id == choice_provider(*choice),
        r.capabilities == provider_capabilities(choice_provider(*choice)),
{
    let id = match choice {
        AdapterChoice::Mock(p) => *p,
        AdapterChoice::Polygon(_) => ProviderId::Polygon,
        AdapterChoice::Alpaca { .. } => ProviderId::Alpaca,
        AdapterChoice::Alphavantage(_) => ProviderId::Alphavantage,
        AdapterChoice::Yahoo(_) => ProviderId::Yahoo,
    };
    SourceRegistration { id, capabilities: capabilities_for(id) }
}

/// The router over the adapters `choices` describe.
pub fn router_for(choices: &Vec<AdapterChoice>) -> (r: SourceRouter)
    ensures
        forall|p: ProviderId| #[trigger] r.capabilities_of(p) == reg_lookup(
            choices@.map_values(
                |c: AdapterChoice|
                    SourceRegistration {
                        id: choice_provider(c),
                        capabilities: provider_capabilities(choice_provider(c)),
                    },
            ),
            p,
        ),
{
    let mut regs: Vec<SourceRegistration> = Vec::new();
    let n = choices.len();
    let mut i: usize = 0;
    while i < n
        invariant
            n == choices.len(),
            i <= n,
            regs@ =~= choices@.take(i as int).map_values(
                |c: AdapterChoice|
                    SourceRegistration {
                        id: choice_provider(c),
                        capabilities: provider_capabilities(choice_provider(c)),
                    },
            ),
        decreases n - i,
    {
        regs.push(registration_for(&choices[i]));
        i = i + 1;
    }
    assert(choices@.take(n as int) =~= choices@);
    SourceRouter::new(regs)
}

/// The router of the four mock adapters.
pub fn default_router() -> (r: SourceRouter)
    ensures
        forall|p: ProviderId| #[trigger] r.capabilities_of(p) == Some(provider_capabilities(p)),
{
    let mut regs: Vec<SourceRegistration> = Vec::new();
    regs.push(SourceRegistration { id: ProviderId::Polygon, capabilities: capabilities_for(ProviderId::Polygon) });
    regs.push(SourceRegistration { id: ProviderId::Alpaca, capabilities: capabilities_for(ProviderId::Alpaca) });
    regs.push(SourceRegistration { id: ProviderId::Alphavantage, capabilities: capabilities_for(ProviderId::Alphavantage) });
    regs.push(SourceRegistration { id: ProviderId::Yahoo, capabilities: capabilities_for(ProviderId::Yahoo) });
    let r = SourceRouter::new(regs);
    proof {
        assert forall|p: ProviderId| #[trigger] r.capabilities_of(p) == Some(provider_capabilities(p)) by {
            let s = regs@;
            assert(s.drop_last().drop_last().drop_last().drop_last() =~= Seq::<SourceRegistration>::empty());
            reveal_with_fuel(reg_lookup, 5);
        }
    }
    r
}

} // verus!
