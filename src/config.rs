use vstd::prelude::*;

use crate::duration::Duration;

verus! {

/// The physical stops that are shown under one logical destination.
#[derive(Debug, Default)]
pub struct DestinationPoints {
    pub stops: Vec<u32>,
    pub destination_name: String,
}

/// What the transit source needs: where to ask, with which credential, for
/// which stop, and how to group what comes back.
#[derive(Debug, Default)]
pub struct TransportConfig {
    pub url: String,
    pub api_key: String,
    pub stop_id: u32,
    pub destination_points: Vec<DestinationPoints>,
}

/// Where the debt page lives and how often to read it (in seconds).
#[derive(Debug, Default)]
pub struct KittyConfig {
    pub url: String,
    pub update_period: Option<i64>,
}

/// Where the calendar feed lives and how often to read it (in seconds).
#[derive(Debug, Default)]
pub struct GcalConfig {
    pub ics_url: String,
    pub update_period: Option<i64>,
}

/// The configuration of every source; a source without one cannot be built.
#[derive(Debug, Default)]
pub struct ApiConfig {
    pub kitty: Option<KittyConfig>,
    pub gcal: Option<GcalConfig>,
    pub transport: Option<TransportConfig>,
    /// Pairs of an hour and the display brightness (in thousandths of full
    /// brightness) from that hour on.
    pub brightness_map: Vec<(u32, u32)>,
}

/// Why an updater could not be built from the configuration.
#[derive(Clone, Copy, Debug, PartialEq, Eq, Structural)]
pub enum ConfigError {
    MissingSection,
    MissingPeriod,
    NegativePeriod,
}


/// A configuration as mathematical values.
pub ghost struct DestinationPointsView {
    pub stops: Seq<u32>,
    pub destination_name: Seq<char>,
}

pub ghost struct TransportConfigView {
    pub url: Seq<char>,
    pub api_key: Seq<char>,
    pub stop_id: u32,
    pub destination_points: Seq<DestinationPointsView>,
}

pub ghost struct SourceConfigView {
    pub url: Seq<char>,
    pub update_period: Option<i64>,
}

pub ghost struct ApiConfigView {
    pub kitty: Option<SourceConfigView>,
    pub gcal: Option<SourceConfigView>,
    pub transport: Option<TransportConfigView>,
    pub brightness_map: Seq<(u32, u32)>,
}

impl DestinationPoints {
    pub open spec fn copy_view(&self) -> DestinationPointsView {
        DestinationPointsView { stops: self.stops@, destination_name: self.destination_name@ }
    }

    pub fn duplicate(&self) -> (r: DestinationPoints)
        ensures
            r.copy_view() == self.copy_view(),
            r.stops@ == self.stops@,
            r.destination_name@ == self.destination_name@,
    {
        let mut stops: Vec<u32> = Vec::new();
        let mut i: usize = 0;
        while i < self.stops.len()
            invariant
                i <= self.stops@.len(),
                stops@ == self.stops@.subrange(0, i as int),
            decreases self.stops@.len() - i,
        {
            stops.push(self.stops[i]);
            i += 1;
        }
        assert(self.stops@.subrange(0, i as int) =~= self.stops@);
        DestinationPoints { stops, destination_name: self.destination_name.clone() }
    }
}

pub open spec fn points_view(points: Seq<DestinationPoints>) -> Seq<DestinationPointsView> {
    points.map_values(|p: DestinationPoints| p.copy_view())
}

impl TransportConfig {
    pub open spec fn copy_view(&self) -> TransportConfigView {
        TransportConfigView {
            url: self.url@,
            api_key: self.api_key@,
            stop_id: self.stop_id,
            destination_points: points_view(self.destination_points@),
        }
    }

    pub fn duplicate(&self) -> (r: TransportConfig)
        ensures
            r.copy_view() == self.copy_view(),
    {
        let mut points: Vec<DestinationPoints> = Vec::new();
        let mut i: usize = 0;
        while i < self.destination_points.len()
            invariant
                i <= self.destination_points@.len(),
                points_view(points@) == points_view(self.destination_points@.subrange(0, i as int)),
            decreases self.destination_points@.len() - i,
        {
            let p = self.destination_points[i].duplicate();
            let ghost before = points@;
            points.push(p);
            assert(points_view(points@) =~= points_view(before).push(p.copy_view()));
            assert(points_view(self.destination_points@.subrange(0, i + 1)) =~= points_view(
                self.destination_points@.subrange(0, i as int),
            ).push(self.destination_points@[i as int].copy_view()));
            i += 1;
        }
        assert(self.destination_points@.subrange(0, i as int) =~= self.destination_points@);
        TransportConfig {
            url: self.url.clone(),
            api_key: self.api_key.clone(),
            stop_id: self.stop_id,
            destination_points: points,
        }
    }
}

impl KittyConfig {
    pub open spec fn copy_view(&self) -> SourceConfigView {
        SourceConfigView { url: self.url@, update_period: self.update_period }
    }
}

impl GcalConfig {
    pub open spec fn copy_view(&self) -> SourceConfigView {
        SourceConfigView { url: self.ics_url@, update_period: self.update_period }
    }
}

impl ApiConfig {
    pub open spec fn copy_view(&self) -> ApiConfigView {
        ApiConfigView {
            kitty: match &self.kitty {
                Some(k) => Some(k.copy_view()),
                None => None,
            },
            gcal: match &self.gcal {
                Some(g) => Some(g.copy_view()),
                None => None,
            },
            transport: match &self.transport {
                Some(t) => Some(t.copy_view()),
                None => None,
            },
            brightness_map: self.brightness_map@,
        }
    }

    pub fn duplicate(&self) -> (r: ApiConfig)
        ensures
            r.copy_view() == self.copy_view(),
    {
        let mut brightness_map: Vec<(u32, u32)> = Vec::new();
        let mut i: usize = 0;
        while i < self.brightness_map.len()
            invariant
                i <= self.brightness_map@.len(),
                brightness_map@ == self.brightness_map@.subrange(0, i as int),
            decreases self.brightness_map@.len() - i,
        {
            brightness_map.push(self.brightness_map[i]);
            i += 1;
        }
        assert(self.brightness_map@.subrange(0, i as int) =~= self.brightness_map@);
        ApiConfig {
            brightness_map,
            kitty: match &self.kitty {
                Some(k) => Some(KittyConfig { url: k.url.clone(), update_period: k.update_period }),
                None => None,
            },
            gcal: match &self.gcal {
                Some(g) => Some(
                    GcalConfig { ics_url: g.ics_url.clone(), update_period: g.update_period },
                ),
                None => None,
            },
            transport: match &self.transport {
                Some(t) => Some(t.duplicate()),
                None => None,
            },
        }
    }
}

/// The period that a configured number of seconds gives, or why it gives none.
pub open spec fn period_of(p: Option<i64>) -> Result<Duration, ConfigError> {
    match p {
        None => Err(ConfigError::MissingPeriod),
        Some(s) => if s < 0 {
            Err(ConfigError::NegativePeriod)
        } else {
            Ok(Duration { secs: s as u64 })
        },
    }
}

/// The period that a configured number of seconds gives.
pub fn period_from(p: Option<i64>) -> (r: Result<Duration, ConfigError>)
    ensures
        r == period_of(p),
{
    match p {
        None => Err(ConfigError::MissingPeriod),
        Some(s) => if s < 0 {
            Err(ConfigError::NegativePeriod)
        } else {
            Ok(Duration::from_secs(s as u64))
        },
    }
}

} // verus!
