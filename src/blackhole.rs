use vstd::prelude::*;
use crate::text::{bool_text, decimal, write_decimal};

verus! {

/// Whether a component asks for delivery confirmation before treating its
/// input as consumed; unset means no.
#[derive(Debug, Clone, Copy, PartialEq, Eq, Structural)]
pub struct AcknowledgementsConfig {
    pub enabled: Option<bool>,
}

impl AcknowledgementsConfig {
    pub open spec fn spec_enabled(self) -> bool {
        self.enabled == Some(true)
    }

    pub fn enabled(&self) -> (r: bool)
        ensures
            r == self.spec_enabled(),
    {
        match self.enabled {
            Some(b) => b,
            None => false,
        }
    }
}

impl Default for AcknowledgementsConfig {
    fn default() -> (r: AcknowledgementsConfig)
        ensures
            r.enabled is None,
    {
        AcknowledgementsConfig { enabled: None }
    }
}

/// The kinds of events a component takes as input.
#[derive(Debug, Clone, Copy, PartialEq, Eq, Structural)]
pub struct Input {
    pub log: bool,
    pub metric: bool,
    pub trace: bool,
}

impl Input {
    /// Input of every kind.
    pub fn all() -> (r: Input)
        ensures
            r.log && r.metric && r.trace,
    {
        Input { log: true, metric: true, trace: true }
    }
}

/// The configuration of the sink that consumes and discards every event.
#[derive(Debug, Clone, Copy, PartialEq, Eq, Structural)]
pub struct BlackholeConfig {
    /// Seconds between activity summaries; zero turns them off.
    pub print_interval_secs: u64,
    /// Events per second that the sink may consume; unset means no limit.
    pub rate: Option<usize>,
    pub acknowledgements: AcknowledgementsConfig,
}

pub fn default_print_interval_secs() -> (r: u64)
    ensures
        r == 1,
{
    1
}

impl Default for BlackholeConfig {
    fn default() -> (r: BlackholeConfig)
        ensures
            r.print_interval_secs == 1,
            r.rate is None,
            r.acknowledgements.enabled is None,
    {
        BlackholeConfig {
            print_interval_secs: default_print_interval_secs(),
            rate: None,
            acknowledgements: AcknowledgementsConfig { enabled: None },
        }
    }
}

/// The TOML document of a configuration: the interval, the rate where one is
/// set, and the acknowledgement setting where one is set.
pub open spec fn toml_text(c: BlackholeConfig) -> Seq<char> {
    "print_interval_secs = "@ + decimal(c.print_interval_secs as nat) + "\n"@ + match c.rate {
        Some(n) => "rate = "@ + decimal(n as nat) + "\n"@,
        None => seq![],
    } + match c.acknowledgements.enabled {
        Some(b) => "\n[acknowledgements]\nenabled = "@ + bool_text(b) + "\n"@,
        None => seq![],
    }
}

impl BlackholeConfig {
    /// Renders the configuration as a TOML document.
    pub fn to_toml_text(&self) -> (r: String)
        ensures
            r@ == toml_text(*self),
    {
        let mut text = String::from_str("print_interval_secs = ");
        write_decimal(self.print_interval_secs, &mut text);
        text.append("\n");
        match self.rate {
            Some(n) => {
                text.append("rate = ");
                write_decimal(n as u64, &mut text);
                text.append("\n");
            },
            None => {},
        }
        match self.acknowledgements.enabled {
            Some(b) => {
                text.append("\n[acknowledgements]\nenabled = ");
                text.append(if b { "true" } else { "false" });
                text.append("\n");
            },
            None => {},
        }
        assert(text@ =~= toml_text(*self));
        text
    }

    /// The default configuration as a TOML document.
    pub fn generate_config() -> (r: String)
        ensures
            r@ == toml_text(BlackholeConfig {
                print_interval_secs: 1,
                rate: None,
                acknowledgements: AcknowledgementsConfig { enabled: None },
            }),
    {
        let config = BlackholeConfig::default();
        config.to_toml_text()
    }

    /// The kinds of events this sink takes.
    pub fn input(&self) -> (r: Input)
        ensures
            r.log && r.metric && r.trace,
    {
        Input::all()
    }

    /// The name under which this sink is configured.
    pub fn sink_type(&self) -> (r: &'static str)
        ensures
            r@ == "blackhole"@,
    {
        "blackhole"
    }

    /// Whether this sink asks for delivery confirmation.
    pub fn acknowledgements(&self) -> (r: &AcknowledgementsConfig)
        ensures
            *r == self.acknowledgements,
    {
        &self.acknowledgements
    }
}

/// Why a pipeline's acknowledgement settings were refused.
#[derive(Debug, Clone, Copy, PartialEq, Eq, Structural)]
pub enum AcknowledgementError {
    /// A sink asks for delivery confirmation, but nothing upstream tracks
    /// delivery outcomes.
    NoFinalizingSource,
}

/// Checks at build time that a sink asking for delivery confirmation has a
/// source upstream that tracks delivery outcomes.
pub fn validate_acknowledgements(sink: &AcknowledgementsConfig, source_finalizes: bool) -> (r: Result<
    (),
    AcknowledgementError,
>)
    ensures
        r is Err <==> sink.spec_enabled() && !source_finalizes,
        r is Err ==> r == Err::<(), _>(AcknowledgementError::NoFinalizingSource),
{
    if sink.enabled() && !source_finalizes {
        Err(AcknowledgementError::NoFinalizingSource)
    } else {
        Ok(())
    }
}

/// The closed set of sink configurations, each known by its type name.
#[derive(Debug, Clone, Copy, PartialEq, Eq, Structural)]
pub enum SinkConfig {
    Blackhole(BlackholeConfig),
}

impl SinkConfig {
    /// The default configuration of the sink registered under `name`, if any.
    pub fn from_name(name: &str) -> (r: Option<SinkConfig>)
        ensures
            name@ == "blackhole"@ ==> r == Some(
                SinkConfig::Blackhole(
                    BlackholeConfig {
                        print_interval_secs: 1,
                        rate: None,
                        acknowledgements: AcknowledgementsConfig { enabled: None },
                    },
                ),
            ),
            name@ != "blackhole"@ ==> r is None,
    {
        let wanted = String::from_str(name);
        let blackhole = String::from_str("blackhole");
        if wanted.eq(&blackhole) {
            Some(SinkConfig::Blackhole(BlackholeConfig::default()))
        } else {
            None
        }
    }

    /// The type name of the sink.
    pub fn sink_type(&self) -> (r: &'static str)
        ensures
            r@ == "blackhole"@,
    {
        match self {
            SinkConfig::Blackhole(c) => c.sink_type(),
        }
    }

    /// Whether the sink asks for delivery confirmation.
    pub fn acknowledgements(&self) -> (r: AcknowledgementsConfig)
        ensures
            r == (match self {
                SinkConfig::Blackhole(c) => c.acknowledgements,
            }),
    {
        match self {
            SinkConfig::Blackhole(c) => *c.acknowledgements(),
        }
    }
}

} // verus!
