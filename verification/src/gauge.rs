//! Gauges with fractional values: fan speed and temperature.
//!
//! Both are published as the quotient of two integers, so that whoever
//! writes the series divides once and nothing else: a fan speed of 73 percent
//! is the ratio 73 / 100, a temperature of 65 degrees is 65 / 1.

use crate::query::Reading;
use crate::registry::texts;
use vstd::prelude::*;
use vstd::string::StringExecFns;

verus! {

/// What a fan speed in percent is divided by: the gauge runs from 0 to 1.
pub const FAN_SPEED_SCALE: u32 = 100;

/// What a temperature is divided by: the gauge is in degrees Celsius.
pub const TEMPERATURE_SCALE: u32 = 1;

/// The two gauge families with fractional values.
#[derive(Clone, Copy, Debug, PartialEq, Eq, Structural)]
pub enum RatioMetric {
    /// `nvml_fan_speed`, labelled with the identity labels and the fan index.
    FanSpeed,
    /// `nvml_temp`, labelled with the identity labels.
    Temperature,
}

/// One value to set in a family with fractional values: the series with the
/// given label values takes `numerator / denominator`.
#[derive(Clone, Debug)]
pub struct RatioGauge {
    pub metric: RatioMetric,
    pub labels: Vec<String>,
    pub numerator: u32,
    pub denominator: u32,
}

/// A `RatioGauge` with its label values as texts.
pub struct RatioGaugeView {
    pub metric: RatioMetric,
    pub labels: Seq<Seq<char>>,
    pub numerator: u32,
    pub denominator: u32,
}

impl View for RatioGauge {
    type V = RatioGaugeView;

    open spec fn view(&self) -> RatioGaugeView {
        RatioGaugeView {
            metric: self.metric,
            labels: self.labels@.map_values(|s: String| s@),
            numerator: self.numerator,
            denominator: self.denominator,
        }
    }
}

/// The character for a decimal digit.
pub open spec fn digit(d: nat) -> char {
    if d == 0 {
        '0'
    } else if d == 1 {
        '1'
    } else if d == 2 {
        '2'
    } else if d == 3 {
        '3'
    } else if d == 4 {
        '4'
    } else if d == 5 {
        '5'
    } else if d == 6 {
        '6'
    } else if d == 7 {
        '7'
    } else if d == 8 {
        '8'
    } else {
        '9'
    }
}

/// A number in decimal notation, without sign or leading zeros.
pub open spec fn decimal(n: nat) -> Seq<char>
    decreases n,
{
    if n < 10 {
        seq![digit(n)]
    } else {
        decimal(n / 10).push(digit(n % 10))
    }
}

/// The gauge that a reading of a device with the given identity labels goes
/// to, if it goes to one with fractional values.
pub open spec fn gauge_of(labels: Seq<Seq<char>>, reading: Reading) -> Option<RatioGaugeView> {
    match reading {
        Reading::FanSpeed { fan, percent } => Some(
            RatioGaugeView {
                metric: RatioMetric::FanSpeed,
                labels: labels.push(decimal(fan as nat)),
                numerator: percent,
                denominator: FAN_SPEED_SCALE,
            },
        ),
        Reading::Temperature(celsius) => Some(
            RatioGaugeView {
                metric: RatioMetric::Temperature,
                labels: labels,
                numerator: celsius,
                denominator: TEMPERATURE_SCALE,
            },
        ),
        _ => None,
    }
}

/// The gauges that a sequence of readings goes to, in the order of the
/// readings.
pub open spec fn gauges_of(labels: Seq<Seq<char>>, readings: Seq<Reading>) -> Seq<RatioGaugeView>
    decreases readings.len(),
{
    if readings.len() == 0 {
        Seq::empty()
    } else {
        let earlier = gauges_of(labels, readings.drop_last());
        match gauge_of(labels, readings.last()) {
            Some(gauge) => earlier.push(gauge),
            None => earlier,
        }
    }
}

/// The views of a vector of gauges.
pub open spec fn gauge_views(gauges: Seq<RatioGauge>) -> Seq<RatioGaugeView> {
    gauges.map_values(|g: RatioGauge| g@)
}

/// A number in decimal notation has at least one digit.
pub proof fn lemma_decimal_is_not_empty(n: nat)
    ensures
        decimal(n).len() >= 1,
        n >= 10 ==> decimal(n).len() >= 2,
    decreases n,
{
    if n >= 10 {
        lemma_decimal_is_not_empty(n / 10);
    }
}

/// Two digits with the same character are the same digit.
pub proof fn lemma_digit_is_injective(a: nat, b: nat)
    requires
        a < 10,
        b < 10,
        digit(a) == digit(b),
    ensures
        a == b,
{
}

/// Two numbers with the same decimal notation are the same number, so the
/// fans of a device have pairwise different fan labels.
pub proof fn lemma_decimal_is_injective(a: nat, b: nat)
    requires
        decimal(a) == decimal(b),
    ensures
        a == b,
    decreases a,
{
    lemma_decimal_is_not_empty(a);
    lemma_decimal_is_not_empty(b);
    if a < 10 {
        assert(decimal(a).len() == 1);
        assert(b < 10);
        assert(decimal(a)[0] == digit(a));
        assert(decimal(b)[0] == digit(b));
        lemma_digit_is_injective(a, b);
    } else {
        assert(decimal(a).len() >= 2);
        if b < 10 {
            assert(decimal(b).len() == 1);
        }
        assert(b >= 10);
        assert(decimal(a / 10) =~= decimal(a).drop_last());
        assert(decimal(b / 10) =~= decimal(b).drop_last());
        lemma_decimal_is_injective(a / 10, b / 10);
        assert(decimal(a).last() == digit(a % 10));
        assert(decimal(b).last() == digit(b % 10));
        lemma_digit_is_injective(a % 10, b % 10);
    }
}

fn digit_text(d: u32) -> (text: &'static str)
    requires
        d < 10,
    ensures
        text@ == seq![digit(d as nat)],
{
    proof {
        reveal_strlit("0");
        reveal_strlit("1");
        reveal_strlit("2");
        reveal_strlit("3");
        reveal_strlit("4");
        reveal_strlit("5");
        reveal_strlit("6");
        reveal_strlit("7");
        reveal_strlit("8");
        reveal_strlit("9");
    }
    let text = if d == 0 {
        "0"
    } else if d == 1 {
        "1"
    } else if d == 2 {
        "2"
    } else if d == 3 {
        "3"
    } else if d == 4 {
        "4"
    } else if d == 5 {
        "5"
    } else if d == 6 {
        "6"
    } else if d == 7 {
        "7"
    } else if d == 8 {
        "8"
    } else {
        "9"
    };
    assert(text@ =~= seq![digit(d as nat)]);
    text
}

/// The label value for a fan index: the index in decimal notation.
pub fn decimal_label(n: u32) -> (label: String)
    ensures
        label@ == decimal(n as nat),
    decreases n,
{
    if n < 10 {
        digit_text(n).to_owned()
    } else {
        let mut label = decimal_label(n / 10);
        label.append(digit_text(n % 10));
        assert(label@ =~= decimal((n / 10) as nat).push(digit((n % 10) as nat)));
        label
    }
}

fn owned_labels(labels: &Vec<&str>) -> (owned: Vec<String>)
    ensures
        owned@.map_values(|s: String| s@) == texts(labels@),
{
    let mut owned: Vec<String> = Vec::new();
    let mut i: usize = 0;
    while i < labels.len()
        invariant
            i <= labels.len(),
            owned@.len() == i,
            forall|j: int| 0 <= j < i ==> owned@[j]@ == labels@[j]@,
        decreases labels.len() - i,
    {
        owned.push(labels[i].to_owned());
        i += 1;
    }
    assert(owned@.map_values(|s: String| s@) =~= texts(labels@));
    owned
}

/// The gauge that a reading goes to, if it goes to one with fractional
/// values: a fan speed to `nvml_fan_speed` under the identity labels
/// followed by the fan index, as percent over 100; a temperature to
/// `nvml_temp` under the identity labels, as degrees over 1. Every other
/// reading goes to an integer family and gives `None`.
pub fn ratio_gauge(labels: &Vec<&str>, reading: &Reading) -> (gauge: Option<RatioGauge>)
    ensures
        gauge matches Some(g) ==> gauge_of(texts(labels@), *reading) == Some(g@),
        gauge is None ==> gauge_of(texts(labels@), *reading) is None,
{
    match reading {
        Reading::FanSpeed { fan, percent } => {
            let mut owned = owned_labels(labels);
            owned.push(decimal_label(*fan));
            let gauge = RatioGauge {
                metric: RatioMetric::FanSpeed,
                labels: owned,
                numerator: *percent,
                denominator: FAN_SPEED_SCALE,
            };
            assert(gauge@.labels =~= texts(labels@).push(decimal(*fan as nat)));
            Some(gauge)
        },
        Reading::Temperature(celsius) => {
            let gauge = RatioGauge {
                metric: RatioMetric::Temperature,
                labels: owned_labels(labels),
                numerator: *celsius,
                denominator: TEMPERATURE_SCALE,
            };
            Some(gauge)
        },
        _ => None,
    }
}

/// The gauges with fractional values that a sequence of readings goes to, in
/// the order of the readings.
pub fn ratio_gauges(labels: &Vec<&str>, readings: &Vec<Reading>) -> (gauges: Vec<RatioGauge>)
    ensures
        gauge_views(gauges@) == gauges_of(texts(labels@), readings@),
{
    let mut gauges: Vec<RatioGauge> = Vec::new();
    let mut i: usize = 0;
    assert(readings@.take(0) =~= Seq::<Reading>::empty());
    assert(gauge_views(gauges@) =~= Seq::<RatioGaugeView>::empty());
    while i < readings.len()
        invariant
            i <= readings.len(),
            gauge_views(gauges@) == gauges_of(texts(labels@), readings@.take(i as int)),
        decreases readings.len() - i,
    {
        let ghost before = gauges@;
        let ghost longer = readings@.take(i + 1);
        assert(longer.drop_last() =~= readings@.take(i as int));
        assert(longer.last() == readings@[i as int]);
        match ratio_gauge(labels, &readings[i]) {
            Some(gauge) => {
                gauges.push(gauge);
                assert(gauge_views(gauges@) =~= gauge_views(before).push(gauge@));
            },
            None => {},
        }
        i += 1;
    }
    assert(readings@.take(i as int) =~= readings@);
    gauges
}

} // verus!
