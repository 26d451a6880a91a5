//! The options that the relay is started with.

use crate::session::TransportListenIp;
use vstd::prelude::*;

verus! {

/// A topic that the media worker can be told to log.
#[derive(Debug, Clone, Copy, PartialEq, Eq, Structural, Hash)]
pub enum WorkerLogTag {
    Info,
    Ice,
    Dtls,
    Rtp,
    Srtp,
    Rtcp,
    Rtx,
    Bwe,
    Score,
    Simulcast,
    Svc,
    Sctp,
    Message,
}

impl WorkerLogTag {
    /// The name of the topic on the command line.
    pub open spec fn spec_name(&self) -> Seq<char> {
        match self {
            WorkerLogTag::Info => "info"@,
            WorkerLogTag::Ice => "ice"@,
            WorkerLogTag::Dtls => "dtls"@,
            WorkerLogTag::Rtp => "rtp"@,
            WorkerLogTag::Srtp => "srtp"@,
            WorkerLogTag::Rtcp => "rtcp"@,
            WorkerLogTag::Rtx => "rtx"@,
            WorkerLogTag::Bwe => "bwe"@,
            WorkerLogTag::Score => "score"@,
            WorkerLogTag::Simulcast => "simulcast"@,
            WorkerLogTag::Svc => "svc"@,
            WorkerLogTag::Sctp => "sctp"@,
            WorkerLogTag::Message => "message"@,
        }
    }

    /// The name of the topic on the command line.
    pub fn name(&self) -> (name: &'static str)
        ensures
            name@ == self.spec_name(),
    {
        match self {
            WorkerLogTag::Info => "info",
            WorkerLogTag::Ice => "ice",
            WorkerLogTag::Dtls => "dtls",
            WorkerLogTag::Rtp => "rtp",
            WorkerLogTag::Srtp => "srtp",
            WorkerLogTag::Rtcp => "rtcp",
            WorkerLogTag::Rtx => "rtx",
            WorkerLogTag::Bwe => "bwe",
            WorkerLogTag::Score => "score",
            WorkerLogTag::Simulcast => "simulcast",
            WorkerLogTag::Svc => "svc",
            WorkerLogTag::Sctp => "sctp",
            WorkerLogTag::Message => "message",
        }
    }

    /// The topic in place `k` of the list of topics.
    pub open spec fn nth(k: int) -> WorkerLogTag {
        if k == 0 {
            WorkerLogTag::Info
        } else if k == 1 {
            WorkerLogTag::Ice
        } else if k == 2 {
            WorkerLogTag::Dtls
        } else if k == 3 {
            WorkerLogTag::Rtp
        } else if k == 4 {
            WorkerLogTag::Srtp
        } else if k == 5 {
            WorkerLogTag::Rtcp
        } else if k == 6 {
            WorkerLogTag::Rtx
        } else if k == 7 {
            WorkerLogTag::Bwe
        } else if k == 8 {
            WorkerLogTag::Score
        } else if k == 9 {
            WorkerLogTag::Simulcast
        } else if k == 10 {
            WorkerLogTag::Svc
        } else if k == 11 {
            WorkerLogTag::Sctp
        } else {
            WorkerLogTag::Message
        }
    }

    /// Every topic, in the order in which a name is looked up.
    pub fn all() -> (tags: Vec<WorkerLogTag>)
        ensures
            tags.len() == 13,
            forall|k: int| 0 <= k < 13 ==> tags[k] == WorkerLogTag::nth(k),
    {
        let mut tags: Vec<WorkerLogTag> = Vec::new();
        tags.push(WorkerLogTag::Info);
        tags.push(WorkerLogTag::Ice);
        tags.push(WorkerLogTag::Dtls);
        tags.push(WorkerLogTag::Rtp);
        tags.push(WorkerLogTag::Srtp);
        tags.push(WorkerLogTag::Rtcp);
        tags.push(WorkerLogTag::Rtx);
        tags.push(WorkerLogTag::Bwe);
        tags.push(WorkerLogTag::Score);
        tags.push(WorkerLogTag::Simulcast);
        tags.push(WorkerLogTag::Svc);
        tags.push(WorkerLogTag::Sctp);
        tags.push(WorkerLogTag::Message);
        tags
    }

    /// Some topic is named `text`.
    pub open spec fn is_name(text: Seq<char>) -> bool {
        exists|k: int| 0 <= k < 13 && #[trigger] WorkerLogTag::nth(k).spec_name() == text
    }

    /// The topic named `text`. A text that names no topic is handed back.
    pub fn parse(text: &str) -> (result: Result<WorkerLogTag, String>)
        ensures
            match result {
                Ok(tag) => tag.spec_name() == text@,
                Err(rejected) => rejected@ == text@ && !WorkerLogTag::is_name(text@),
            },
    {
        let wanted = text.to_owned();
        let tags = WorkerLogTag::all();
        let mut k: usize = 0;
        while k < tags.len()
            invariant
                k <= tags.len(),
                tags.len() == 13,
                wanted@ == text@,
                forall|j: int| 0 <= j < 13 ==> tags[j] == WorkerLogTag::nth(j),
                forall|j: int| 0 <= j < k ==> #[trigger] WorkerLogTag::nth(j).spec_name() != text@,
            decreases tags.len() - k,
        {
            if tags[k].name().to_owned() == wanted {
                return Ok(tags[k]);
            }
            k = k + 1;
        }
        Err(wanted)
    }
}

impl std::str::FromStr for WorkerLogTag {
    type Err = String;

    /// The topic named `s`. A text that names no topic is handed back.
    fn from_str(s: &str) -> (result: Result<Self, Self::Err>)
        ensures
            match result {
                Ok(tag) => tag.spec_name() == s@,
                Err(rejected) => rejected@ == s@ && !WorkerLogTag::is_name(s@),
            },
    {
        WorkerLogTag::parse(s)
    }
}

/// Why a set of options cannot be used.
#[derive(Debug, Clone, Copy, PartialEq, Eq, Structural)]
pub enum OptsError {
    /// TLS is on and no certificate is given.
    MissingCertPath,
    /// TLS is on and no certificate key is given.
    MissingKeyPath,
    /// TLS is off and a certificate or a key is given.
    TlsDisabled,
}

/// The options that the relay is started with.
#[derive(Debug)]
pub struct Opts {
    /// Path to certificate to use for control and signal endpoints.
    pub cert_path: Option<String>,
    /// Path to certificate key to use for control and signal endpoints.
    pub key_path: Option<String>,
    /// Listen address for signal endpoint.
    pub signal_addr: String,
    /// Listen address for control endpoint.
    pub control_addr: String,
    /// Listen address for RTC protocols.
    pub rtc_ip: String,
    /// Announce address for RTC protocols.
    pub rtc_announce_ip: Option<String>,
    /// Disable TLS for all endpoints.
    pub no_tls: bool,
    /// Disable CORS on all HTTP endpoints.
    pub no_cors: bool,
    /// Enable specific log tags for the media worker.
    pub log_tags: Vec<WorkerLogTag>,
    /// RTC ports range minimum.
    pub rtc_ports_range_min: u16,
    /// RTC ports range maximum.
    pub rtc_ports_range_max: u16,
}

impl Default for Opts {
    /// The options of a relay that is started without any.
    fn default() -> (opts: Opts)
        ensures
            opts.cert_path is None,
            opts.key_path is None,
            opts.signal_addr@ == "127.0.0.1:8443"@,
            opts.control_addr@ == "127.0.0.1:9443"@,
            opts.rtc_ip@ == "127.0.0.1"@,
            opts.rtc_announce_ip is None,
            !opts.no_tls,
            !opts.no_cors,
            opts.log_tags@.len() == 0,
            opts.rtc_ports_range_min == 10000,
            opts.rtc_ports_range_max == 59999,
    {
        Opts {
            cert_path: None,
            key_path: None,
            signal_addr: "127.0.0.1:8443".to_owned(),
            control_addr: "127.0.0.1:9443".to_owned(),
            rtc_ip: "127.0.0.1".to_owned(),
            rtc_announce_ip: None,
            no_tls: false,
            no_cors: false,
            log_tags: Vec::new(),
            rtc_ports_range_min: 10000,
            rtc_ports_range_max: 59999,
        }
    }
}

impl Opts {
    /// What is wrong with the options, if anything: with TLS on, both a
    /// certificate and a key are required; with TLS off, neither may be given.
    pub open spec fn fault(&self) -> Option<OptsError> {
        if self.no_tls {
            if self.cert_path is Some || self.key_path is Some {
                Some(OptsError::TlsDisabled)
            } else {
                None
            }
        } else if self.cert_path is None {
            Some(OptsError::MissingCertPath)
        } else if self.key_path is None {
            Some(OptsError::MissingKeyPath)
        } else {
            None
        }
    }

    /// Checks that the options can be used together.
    pub fn check(&self) -> (result: Result<(), OptsError>)
        ensures
            result == (match self.fault() {
                Some(error) => Err::<(), OptsError>(error),
                None => Ok(()),
            }),
    {
        if self.no_tls {
            if self.cert_path.is_some() || self.key_path.is_some() {
                Err(OptsError::TlsDisabled)
            } else {
                Ok(())
            }
        } else if self.cert_path.is_none() {
            Err(OptsError::MissingCertPath)
        } else if self.key_path.is_none() {
            Err(OptsError::MissingKeyPath)
        } else {
            Ok(())
        }
    }

    /// The address that the sessions of the relay listen on for media.
    pub fn transport_listen_ip(&self) -> (listen_ip: TransportListenIp)
        ensures
            listen_ip.ip@ == self.rtc_ip@,
            match (listen_ip.announced_ip, self.rtc_announce_ip) {
                (Some(a), Some(b)) => a@ == b@,
                (None, None) => true,
                _ => false,
            },
    {
        TransportListenIp {
            ip: self.rtc_ip.clone(),
            announced_ip: match &self.rtc_announce_ip {
                Some(ip) => Some(ip.clone()),
                None => None,
            },
        }
    }
}

} // verus!
