//! Rooms that give compilation agents a shared context: sensors with
//! deadband filtering, a history of readings, and alarms.
//!
//! Real-valued sensor readings are whole numbers of millionths.
use vstd::prelude::*;
use crate::text::{chars_of, eq_chars, nat_text, push_nat, push_str, string_of};

verus! {

/// One in millionths.
pub const MILLIONTHS: i64 = 1_000_000;

/// The most readings a room's history keeps.
pub const MAX_HISTORY: usize = 1000;

/// The value of a sensor. `Float` holds a real number in millionths.
#[derive(Clone, Debug)]
pub enum SensorValue {
    Float(i64),
    Int(i64),
    String(String),
    Bool(bool),
}

/// A sensor value as the contracts see it.
pub enum Reading {
    Float(i64),
    Int(i64),
    Text(Seq<char>),
    Bool(bool),
}

pub open spec fn reading_of(v: SensorValue) -> Reading {
    match v {
        SensorValue::Float(x) => Reading::Float(x),
        SensorValue::Int(x) => Reading::Int(x),
        SensorValue::String(s) => Reading::Text(s@),
        SensorValue::Bool(b) => Reading::Bool(b),
    }
}

/// A copy of a sensor value.
pub fn copy_value(v: &SensorValue) -> (r: SensorValue)
    ensures
        reading_of(r) == reading_of(*v),
{
    match v {
        SensorValue::Float(x) => SensorValue::Float(*x),
        SensorValue::Int(x) => SensorValue::Int(*x),
        SensorValue::String(s) => SensorValue::String(s.clone()),
        SensorValue::Bool(b) => SensorValue::Bool(*b),
    }
}

/// A reading recorded in a room's history.
#[derive(Clone, Debug)]
pub struct SensorReading {
    pub sensor_name: String,
    pub value: SensorValue,
}

#[derive(Clone, Copy, Debug, PartialEq, Eq, Structural)]
pub enum AlarmSeverity {
    Info,
    Warning,
    Critical,
}

/// An alarm raised in a room.
#[derive(Clone, Debug)]
pub struct Alarm {
    pub name: String,
    pub severity: AlarmSeverity,
    pub message: String,
    pub active: bool,
}

/// A room's sensors: name and reading, names distinct, in order of first setting.
pub open spec fn sensors_view(s: Seq<(String, SensorValue)>) -> Seq<(Seq<char>, Reading)> {
    s.map_values(|e: (String, SensorValue)| (e.0@, reading_of(e.1)))
}

/// The position of the last sensor named `name`.
pub open spec fn sensor_index(s: Seq<(Seq<char>, Reading)>, name: Seq<char>) -> Option<int>
    decreases s.len(),
{
    if s.len() == 0 {
        None
    } else if s.last().0 == name {
        Some(s.len() - 1)
    } else {
        sensor_index(s.drop_last(), name)
    }
}

/// The reading of sensor `name`.
pub open spec fn sensor_lookup(s: Seq<(Seq<char>, Reading)>, name: Seq<char>) -> Option<Reading> {
    match sensor_index(s, name) {
        Some(i) => Some(s[i].1),
        None => None,
    }
}

/// The sensors after setting `name`: an existing sensor keeps its place, a
/// new one is added at the end.
pub open spec fn sensor_set(s: Seq<(Seq<char>, Reading)>, name: Seq<char>, v: Reading) -> Seq<(Seq<char>, Reading)> {
    match sensor_index(s, name) {
        Some(i) => s.update(i, (name, v)),
        None => s.push((name, v)),
    }
}

proof fn lemma_sensor_index_props(s: Seq<(Seq<char>, Reading)>, name: Seq<char>)
    ensures
        sensor_index(s, name) matches Some(i) ==> 0 <= i < s.len() && s[i].0 == name,
        sensor_index(s, name) is None <==> forall|k: int| 0 <= k < s.len() ==> s[k].0 != name,
    decreases s.len(),
{
    if s.len() > 0 && s.last().0 != name {
        lemma_sensor_index_props(s.drop_last(), name);
        if sensor_index(s, name) is None {
            assert forall|k: int| 0 <= k < s.len() implies s[k].0 != name by {
                if k < s.len() - 1 {
                    assert(s.drop_last()[k] == s[k]);
                }
            }
        } else {
            let k = choose|k: int| 0 <= k < s.drop_last().len() && s.drop_last()[k].0 == name;
            if forall|k: int| 0 <= k < s.len() ==> s[k].0 != name {
                assert(s[k] == s.drop_last()[k]);
            }
        }
    } else if s.len() > 0 {
        assert(s[s.len() - 1].0 == name);
    }
}

proof fn lemma_sensor_index(s: Seq<(Seq<char>, Reading)>, name: Seq<char>, i: int)
    requires
        0 <= i <= s.len(),
        forall|k: int| i <= k < s.len() ==> s[k].0 != name,
    ensures
        sensor_index(s, name) == sensor_index(s.subrange(0, i), name),
    decreases s.len() - i,
{
    if i < s.len() {
        assert(s.drop_last().subrange(0, i) =~= s.subrange(0, i));
        lemma_sensor_index(s.drop_last(), name, i);
    } else {
        assert(s.subrange(0, i) =~= s);
    }
}

proof fn lemma_sensor_index_update(s: Seq<(Seq<char>, Reading)>, i: int, e: (Seq<char>, Reading), key: Seq<char>)
    requires
        0 <= i < s.len(),
        e.0 == s[i].0,
    ensures
        sensor_index(s.update(i, e), key) == sensor_index(s, key),
    decreases s.len(),
{
    let u = s.update(i, e);
    if i < s.len() - 1 {
        assert(u.drop_last() =~= s.drop_last().update(i, e));
        lemma_sensor_index_update(s.drop_last(), i, e, key);
    } else {
        assert(u.drop_last() =~= s.drop_last());
    }
}

/// Setting a sensor makes it read the value set, and leaves every other
/// sensor reading as before.
pub proof fn lemma_sensor_read_after_write(
    s: Seq<(Seq<char>, Reading)>,
    name: Seq<char>,
    v: Reading,
    other: Seq<char>,
)
    ensures
        sensor_lookup(sensor_set(s, name, v), name) == Some(v),
        other != name ==> sensor_lookup(sensor_set(s, name, v), other) == sensor_lookup(s, other),
{
    lemma_sensor_index_props(s, name);
    lemma_sensor_index_props(s, other);
    match sensor_index(s, name) {
        Some(i) => {
            lemma_sensor_index_update(s, i, (name, v), name);
            lemma_sensor_index_update(s, i, (name, v), other);
        },
        None => {
            assert(s.push((name, v)).drop_last() =~= s);
        },
    }
}

/// Whether a new reading passes the deadband: a real reading must move by
/// more than the threshold; other readings must differ; a new sensor, or a
/// reading of another kind, always passes.
pub open spec fn passes_deadband(old: Option<Reading>, new: Reading, threshold: i64) -> bool {
    match (old, new) {
        (Some(Reading::Float(a)), Reading::Float(b)) => {
            let d = a - b;
            (if d < 0 { -d } else { d }) > threshold
        },
        (Some(Reading::Int(a)), Reading::Int(b)) => a != b,
        (Some(Reading::Text(a)), Reading::Text(b)) => a != b,
        (Some(Reading::Bool(a)), Reading::Bool(b)) => a != b,
        _ => true,
    }
}

/// The first reading of a sensor is always recorded; the same reading again
/// never is (for a non-negative threshold).
pub proof fn lemma_deadband_filters_repeats(r: Reading, threshold: i64)
    requires
        threshold >= 0,
    ensures
        passes_deadband(None, r, threshold),
        !passes_deadband(Some(r), r, threshold),
{
}

/// A room for agent coordination.
pub struct PlatoRoom {
    /// The room's name.
    pub name: String,
    /// Current sensor readings, in order of first setting.
    pub sensors: Vec<(String, SensorValue)>,
    /// Readings that passed the deadband, oldest first.
    pub history: Vec<SensorReading>,
    /// Alarms raised, oldest first.
    pub alarms: Vec<Alarm>,
    /// The most readings the history keeps.
    pub max_history: usize,
    /// How far a real reading must move to be recorded, in millionths.
    pub deadband_threshold: i64,
}

pub open spec fn history_view(h: Seq<SensorReading>) -> Seq<(Seq<char>, Reading)> {
    h.map_values(|r: SensorReading| (r.sensor_name@, reading_of(r.value)))
}

/// A history after a new reading: the oldest reading goes beyond `MAX_HISTORY`.
pub open spec fn history_after(h: Seq<(Seq<char>, Reading)>, e: (Seq<char>, Reading)) -> Seq<(Seq<char>, Reading)> {
    if h.len() + 1 > MAX_HISTORY {
        h.push(e).drop_first()
    } else {
        h.push(e)
    }
}

pub open spec fn alarm_view(a: Alarm) -> (Seq<char>, AlarmSeverity, Seq<char>, bool) {
    (a.name@, a.severity, a.message@, a.active)
}

pub open spec fn alarms_view(a: Seq<Alarm>) -> Seq<(Seq<char>, AlarmSeverity, Seq<char>, bool)> {
    a.map_values(|x: Alarm| alarm_view(x))
}

/// The active alarms among `a`, in order.
pub open spec fn active_only(a: Seq<(Seq<char>, AlarmSeverity, Seq<char>, bool)>) -> Seq<(Seq<char>, AlarmSeverity, Seq<char>, bool)>
    decreases a.len(),
{
    if a.len() == 0 {
        seq![]
    } else if a.last().3 {
        active_only(a.drop_last()).push(a.last())
    } else {
        active_only(a.drop_last())
    }
}

pub open spec fn alarm_refs_view(r: Seq<&Alarm>) -> Seq<(Seq<char>, AlarmSeverity, Seq<char>, bool)> {
    r.map_values(|x: &Alarm| alarm_view(*x))
}

/// The position of the first alarm named `name`.
pub open spec fn first_alarm(a: Seq<(Seq<char>, AlarmSeverity, Seq<char>, bool)>, name: Seq<char>) -> Option<int>
    decreases a.len(),
{
    if a.len() == 0 {
        None
    } else {
        match first_alarm(a.drop_last(), name) {
            Some(i) => Some(i),
            None => if a.last().0 == name {
                Some(a.len() - 1)
            } else {
                None
            },
        }
    }
}

/// The number of active alarms.
pub open spec fn active_count(a: Seq<(Seq<char>, AlarmSeverity, Seq<char>, bool)>) -> nat
    decreases a.len(),
{
    if a.len() == 0 {
        0
    } else {
        active_count(a.drop_last()) + if a.last().3 {
            1nat
        } else {
            0nat
        }
    }
}


impl PlatoRoom {
    /// The deadband threshold for real readings, in millionths.
    pub open spec fn threshold(&self) -> i64 {
        self.deadband_threshold
    }

    pub open spec fn wf(&self) -> bool {
        &&& self.max_history == MAX_HISTORY
        &&& self.history@.len() <= MAX_HISTORY
    }

    /// An empty room; real readings must move by more than 0.01 to be recorded.
    pub fn new(name: &str) -> (r: Self)
        ensures
            r.wf(),
            r.name@ == name@,
            r.sensors@.len() == 0,
            r.history@.len() == 0,
            r.alarms@.len() == 0,
            r.threshold() == 10_000,
    {
        PlatoRoom {
            name: string_of(chars_of(name).as_slice()),
            sensors: Vec::new(),
            history: Vec::new(),
            alarms: Vec::new(),
            max_history: MAX_HISTORY,
            deadband_threshold: 10_000,
        }
    }

    /// The room `shader_compiler` with its default sensors.
    pub fn shader_compiler_room() -> (r: Self)
        ensures
            r.wf(),
            r.name@ == "shader_compiler"@,
            sensors_view(r.sensors@) == shader_sensors(),
            r.history@.len() == 0,
            r.alarms@.len() == 0,
            r.threshold() == 10_000,
    {
        let mut room = Self::new("shader_compiler");
        room.init_shader_sensors();
        room
    }

    /// Sets a sensor without deadband filtering or history.
    fn insert_sensor(&mut self, name: &str, value: SensorValue)
        ensures
            sensors_view(final(self).sensors@) == sensor_set(sensors_view(old(self).sensors@), name@, reading_of(value)),
            final(self).history@ == old(self).history@,
            final(self).alarms@ == old(self).alarms@,
            final(self).name@ == old(self).name@,
            final(self).max_history == old(self).max_history,
            final(self).threshold() == old(self).threshold(),
    {
        let key = chars_of(name);
        let i = self.sensor_position(key.as_slice());
        let entry = (string_of(key.as_slice()), value);
        let ghost sv = sensors_view(self.sensors@);
        proof {
            lemma_sensor_index_props(sv, name@);
        }
        match i {
            Some(j) => {
                self.sensors.set(j, entry);
                assert(sensors_view(self.sensors@) =~= sv.update(j as int, (name@, reading_of(value))));
            },
            None => {
                self.sensors.push(entry);
                assert(sensors_view(self.sensors@) =~= sv.push((name@, reading_of(value))));
            },
        }
    }

    /// The position of the last sensor named `key`.
    fn sensor_position(&self, key: &[char]) -> (r: Option<usize>)
        ensures
            match r {
                Some(j) => sensor_index(sensors_view(self.sensors@), key@) == Some(j as int),
                None => sensor_index(sensors_view(self.sensors@), key@) is None,
            },
    {
        let ghost sv = sensors_view(self.sensors@);
        let mut i = self.sensors.len();
        let mut found = false;
        while i > 0 && !found
            invariant
                i <= self.sensors@.len(),
                sv == sensors_view(self.sensors@),
                found ==> 0 < i && sv[i - 1].0 == key@,
                forall|k: int| i <= k < sv.len() ==> sv[k].0 != key@,
            decreases i + if found { 0int } else { 1int },
        {
            let k = chars_of(self.sensors[i - 1].0.as_str());
            if eq_chars(k.as_slice(), key) {
                found = true;
            } else {
                i = i - 1;
            }
        }
        proof {
            lemma_sensor_index(sv, key@, i as int);
            if found {
                assert(sv.subrange(0, i as int).last() == sv[i - 1]);
            } else {
                assert(sv.subrange(0, 0) =~= Seq::<(Seq<char>, Reading)>::empty());
            }
        }
        if found {
            Some(i - 1)
        } else {
            None
        }
    }

    fn init_shader_sensors(&mut self)
        requires
            old(self).wf(),
            old(self).sensors@.len() == 0,
        ensures
            final(self).wf(),
            final(self).max_history == old(self).max_history,
            sensors_view(final(self).sensors@) == shader_sensors(),
            final(self).history@ == old(self).history@,
            final(self).alarms@ == old(self).alarms@,
            final(self).name@ == old(self).name@,
            final(self).threshold() == old(self).threshold(),
    {
        proof {
            reveal_strlit("shader_source");
            reveal_strlit("target_format");
            reveal_strlit("budget_remaining");
            reveal_strlit("compile_count");
            reveal_strlit("error_rate");
            reveal_strlit("last_compile_time");
            reveal_strlit("gpu_available");
            reveal_strlit("wgsl");
        }
        let ghost all = shader_sensors();
        proof {
            assert(all[1].0 != all[0].0) by { assert(all[1].0[0] != all[0].0[0]); }
            assert(all[2].0 != all[0].0) by { assert(all[2].0.len() != all[0].0.len()); }
            assert(all[2].0 != all[1].0) by { assert(all[2].0.len() != all[1].0.len()); }
            assert(all[3].0 != all[0].0) by { assert(all[3].0[0] != all[0].0[0]); }
            assert(all[3].0 != all[1].0) by { assert(all[3].0[0] != all[1].0[0]); }
            assert(all[3].0 != all[2].0) by { assert(all[3].0.len() != all[2].0.len()); }
            assert(all[4].0 != all[0].0) by { assert(all[4].0.len() != all[0].0.len()); }
            assert(all[4].0 != all[1].0) by { assert(all[4].0.len() != all[1].0.len()); }
            assert(all[4].0 != all[2].0) by { assert(all[4].0.len() != all[2].0.len()); }
            assert(all[4].0 != all[3].0) by { assert(all[4].0.len() != all[3].0.len()); }
            assert(all[5].0 != all[0].0) by { assert(all[5].0.len() != all[0].0.len()); }
            assert(all[5].0 != all[1].0) by { assert(all[5].0.len() != all[1].0.len()); }
            assert(all[5].0 != all[2].0) by { assert(all[5].0.len() != all[2].0.len()); }
            assert(all[5].0 != all[3].0) by { assert(all[5].0.len() != all[3].0.len()); }
            assert(all[5].0 != all[4].0) by { assert(all[5].0.len() != all[4].0.len()); }
            assert(all[6].0 != all[0].0) by { assert(all[6].0[0] != all[0].0[0]); }
            assert(all[6].0 != all[1].0) by { assert(all[6].0[0] != all[1].0[0]); }
            assert(all[6].0 != all[2].0) by { assert(all[6].0.len() != all[2].0.len()); }
            assert(all[6].0 != all[3].0) by { assert(all[6].0[0] != all[3].0[0]); }
            assert(all[6].0 != all[4].0) by { assert(all[6].0.len() != all[4].0.len()); }
            assert(all[6].0 != all[5].0) by { assert(all[6].0.len() != all[5].0.len()); }
        }
        self.insert_sensor("shader_source", SensorValue::String(String::new()));
        proof { lemma_sensor_index_props(all.subrange(0, 0), all[0].0); }
        assert(sensors_view(self.sensors@) =~= all.subrange(0, 1));
        self.insert_sensor("target_format", SensorValue::String(string_of(chars_of("wgsl").as_slice())));
        proof { lemma_sensor_index_props(all.subrange(0, 1), all[1].0); }
        assert(sensors_view(self.sensors@) =~= all.subrange(0, 2));
        self.insert_sensor("budget_remaining", SensorValue::Float(100_000));
        proof { lemma_sensor_index_props(all.subrange(0, 2), all[2].0); }
        assert(sensors_view(self.sensors@) =~= all.subrange(0, 3));
        self.insert_sensor("compile_count", SensorValue::Int(0));
        proof { lemma_sensor_index_props(all.subrange(0, 3), all[3].0); }
        assert(sensors_view(self.sensors@) =~= all.subrange(0, 4));
        self.insert_sensor("error_rate", SensorValue::Float(0));
        proof { lemma_sensor_index_props(all.subrange(0, 4), all[4].0); }
        assert(sensors_view(self.sensors@) =~= all.subrange(0, 5));
        self.insert_sensor("last_compile_time", SensorValue::Float(0));
        proof { lemma_sensor_index_props(all.subrange(0, 5), all[5].0); }
        assert(sensors_view(self.sensors@) =~= all.subrange(0, 6));
        self.insert_sensor("gpu_available", SensorValue::Bool(true));
        proof { lemma_sensor_index_props(all.subrange(0, 6), all[6].0); }
        assert(sensors_view(self.sensors@) =~= all.subrange(0, 7));
        assert(sensors_view(self.sensors@) =~= shader_sensors());
    }
}

/// The default sensors of the shader compilation room.
pub open spec fn shader_sensors() -> Seq<(Seq<char>, Reading)> {
    seq![
        ("shader_source"@, Reading::Text(seq![])),
        ("target_format"@, Reading::Text("wgsl"@)),
        ("budget_remaining"@, Reading::Float(100_000)),
        ("compile_count"@, Reading::Int(0)),
        ("error_rate"@, Reading::Float(0)),
        ("last_compile_time"@, Reading::Float(0)),
        ("gpu_available"@, Reading::Bool(true)),
    ]
}


impl PlatoRoom {
    /// Sets a sensor when the new value passes the deadband, recording the
    /// reading in the history; returns whether it did.
    pub fn set_sensor(&mut self, name: &str, value: SensorValue) -> (updated: bool)
        requires
            old(self).wf(),
        ensures
            final(self).wf(),
            updated == passes_deadband(
                sensor_lookup(sensors_view(old(self).sensors@), name@),
                reading_of(value),
                old(self).threshold(),
            ),
            updated ==> sensors_view(final(self).sensors@) == sensor_set(
                sensors_view(old(self).sensors@),
                name@,
                reading_of(value),
            ) && history_view(final(self).history@) == history_after(
                history_view(old(self).history@),
                (name@, reading_of(value)),
            ),
            !updated ==> final(self).sensors@ == old(self).sensors@ && final(self).history@ == old(
                self,
            ).history@,
            final(self).alarms@ == old(self).alarms@,
            final(self).name@ == old(self).name@,
            final(self).threshold() == old(self).threshold(),
    {
        let key = chars_of(name);
        let ghost sv = sensors_view(self.sensors@);
        let pos = self.sensor_position(key.as_slice());
        proof {
            lemma_sensor_index_props(sv, name@);
        }
        let should_update = match pos {
            Some(j) => match (&self.sensors[j].1, &value) {
                (SensorValue::Float(a), SensorValue::Float(b)) => {
                    let d = (*a as i128) - (*b as i128);
                    let ad = if d < 0 { -d } else { d };
                    ad > self.deadband_threshold as i128
                },
                (SensorValue::Int(a), SensorValue::Int(b)) => *a != *b,
                (SensorValue::String(a), SensorValue::String(b)) => {
                    let x = chars_of(a.as_str());
                    let y = chars_of(b.as_str());
                    !eq_chars(x.as_slice(), y.as_slice())
                },
                (SensorValue::Bool(a), SensorValue::Bool(b)) => *a != *b,
                _ => true,
            },
            None => true,
        };
        if should_update {
            let recorded = copy_value(&value);
            self.insert_sensor(name, value);
            let ghost hv = history_view(self.history@);
            self.history.push(SensorReading { sensor_name: string_of(key.as_slice()), value: recorded });
            assert(history_view(self.history@) =~= hv.push((name@, reading_of(recorded))));
            if self.history.len() > self.max_history {
                self.history.remove(0);
                assert(history_view(self.history@) =~= hv.push((name@, reading_of(recorded))).drop_first());
            }
        }
        should_update
    }

    /// The current value of a sensor.
    pub fn get_sensor(&self, name: &str) -> (r: Option<&SensorValue>)
        ensures
            match r {
                Some(v) => sensor_lookup(sensors_view(self.sensors@), name@) == Some(reading_of(*v)),
                None => sensor_lookup(sensors_view(self.sensors@), name@) is None,
            },
    {
        let key = chars_of(name);
        proof {
            lemma_sensor_index_props(sensors_view(self.sensors@), name@);
        }
        match self.sensor_position(key.as_slice()) {
            Some(j) => Some(&self.sensors[j].1),
            None => None,
        }
    }

    /// Raises an alarm.
    pub fn trigger_alarm(&mut self, name: &str, severity: AlarmSeverity, message: String)
        ensures
            alarms_view(final(self).alarms@) == alarms_view(old(self).alarms@).push(
                (name@, severity, message@, true),
            ),
            final(self).sensors@ == old(self).sensors@,
            final(self).history@ == old(self).history@,
            final(self).name@ == old(self).name@,
            final(self).max_history == old(self).max_history,
            final(self).threshold() == old(self).threshold(),
    {
        self.alarms.push(
            Alarm { name: string_of(chars_of(name).as_slice()), severity, message, active: true },
        );
        assert(alarms_view(self.alarms@) =~= alarms_view(old(self).alarms@).push(
            (name@, severity, message@, true),
        ));
    }

    /// Clears the first alarm with this name.
    pub fn clear_alarm(&mut self, name: &str)
        ensures
            alarms_view(final(self).alarms@) == match first_alarm(alarms_view(old(self).alarms@), name@) {
                Some(i) => {
                    let a = alarms_view(old(self).alarms@)[i];
                    alarms_view(old(self).alarms@).update(i, (a.0, a.1, a.2, false))
                },
                None => alarms_view(old(self).alarms@),
            },
            final(self).sensors@ == old(self).sensors@,
            final(self).history@ == old(self).history@,
            final(self).name@ == old(self).name@,
            final(self).max_history == old(self).max_history,
            final(self).threshold() == old(self).threshold(),
    {
        let key = chars_of(name);
        let ghost av = alarms_view(self.alarms@);
        let mut i: usize = 0;
        let mut found = false;
        while i < self.alarms.len() && !found
            invariant
                i <= self.alarms@.len(),
                av == alarms_view(self.alarms@),
                key@ == name@,
                !found ==> first_alarm(av.subrange(0, i as int), name@) is None,
                found ==> i < av.len() && first_alarm(av.subrange(0, i as int), name@) is None
                    && av[i as int].0 == name@,
            decreases self.alarms@.len() - i + if found { 0int } else { 1int },
        {
            let k = chars_of(self.alarms[i].name.as_str());
            assert(av.subrange(0, i + 1).drop_last() =~= av.subrange(0, i as int));
            if eq_chars(k.as_slice(), key.as_slice()) {
                found = true;
            } else {
                i = i + 1;
            }
        }
        proof {
            lemma_first_alarm_prefix(av, name@, i as int, found);
        }
        if found {
            let mut a = self.alarms.remove(i);
            a.active = false;
            self.alarms.insert(i, a);
            assert(alarms_view(self.alarms@) =~= av.update(i as int, (av[i as int].0, av[i as int].1, av[i as int].2, false)));
        }
    }

    /// The active alarms, oldest first.
    pub fn active_alarms(&self) -> (r: Vec<&Alarm>)
        ensures
            alarm_refs_view(r@) == active_only(alarms_view(self.alarms@)),
            r@.len() == active_count(alarms_view(self.alarms@)),
            forall|k: int| 0 <= k < r@.len() ==> (#[trigger] r@[k]).active,
    {
        let ghost av = alarms_view(self.alarms@);
        let mut r: Vec<&Alarm> = Vec::new();
        let mut i: usize = 0;
        while i < self.alarms.len()
            invariant
                i <= self.alarms@.len(),
                av == alarms_view(self.alarms@),
                r@.len() == active_count(av.subrange(0, i as int)),
                alarm_refs_view(r@) == active_only(av.subrange(0, i as int)),
                forall|k: int| 0 <= k < r@.len() ==> (#[trigger] r@[k]).active,
            decreases self.alarms@.len() - i,
        {
            assert(av.subrange(0, i + 1).drop_last() =~= av.subrange(0, i as int));
            assert(av.subrange(0, i + 1).last() == alarm_view(self.alarms@[i as int]));
            if self.alarms[i].active {
                let ghost before = r@;
                r.push(&self.alarms[i]);
                assert(alarm_refs_view(r@) =~= alarm_refs_view(before).push(alarm_view(self.alarms@[i as int])));
            }
            i = i + 1;
        }
        assert(av.subrange(0, i as int) =~= av);
        r
    }

    /// What agents decide on: the room's name, the budget left, the number of
    /// compilations, the error rate, whether a GPU is there and how many
    /// alarms are active. Sensors of another kind count as zero or false.
    pub fn get_context(&self) -> (c: RoomContext)
        ensures
            c.room_name@ == self.name@,
            c.budget_remaining == float_or_zero(sensor_lookup(sensors_view(self.sensors@), "budget_remaining"@)),
            c.compile_count == (match sensor_lookup(sensors_view(self.sensors@), "compile_count"@) {
                Some(Reading::Int(v)) => v as u64,
                _ => 0u64,
            }),
            c.error_rate == float_or_zero(sensor_lookup(sensors_view(self.sensors@), "error_rate"@)),
            c.gpu_available == (sensor_lookup(sensors_view(self.sensors@), "gpu_available"@) == Some(Reading::Bool(true))),
            c.active_alarms == active_count(alarms_view(self.alarms@)),
    {
        let budget_remaining = match self.get_sensor("budget_remaining") {
            Some(SensorValue::Float(v)) => *v,
            _ => 0,
        };
        let compile_count = match self.get_sensor("compile_count") {
            Some(SensorValue::Int(v)) => *v as u64,
            _ => 0,
        };
        let error_rate = match self.get_sensor("error_rate") {
            Some(SensorValue::Float(v)) => *v,
            _ => 0,
        };
        let gpu_available = match self.get_sensor("gpu_available") {
            Some(SensorValue::Bool(v)) => *v,
            _ => false,
        };
        RoomContext {
            room_name: self.name.clone(),
            budget_remaining,
            compile_count,
            error_rate,
            gpu_available,
            active_alarms: self.active_alarms().len(),
        }
    }

    /// Sets the deadband threshold for real readings, in millionths.
    pub fn set_deadband_threshold(&mut self, threshold: i64)
        ensures
            final(self).threshold() == threshold,
            final(self).sensors@ == old(self).sensors@,
            final(self).history@ == old(self).history@,
            final(self).alarms@ == old(self).alarms@,
            final(self).name@ == old(self).name@,
            final(self).max_history == old(self).max_history,
    {
        self.deadband_threshold = threshold;
    }
}

/// A real reading, or zero for a missing sensor or one of another kind.
pub open spec fn float_or_zero(r: Option<Reading>) -> i64 {
    match r {
        Some(Reading::Float(v)) => v,
        _ => 0,
    }
}

proof fn lemma_first_alarm_prefix(
    av: Seq<(Seq<char>, AlarmSeverity, Seq<char>, bool)>,
    name: Seq<char>,
    i: int,
    found: bool,
)
    requires
        0 <= i <= av.len(),
        first_alarm(av.subrange(0, i), name) is None,
        found ==> i < av.len() && av[i].0 == name,
        !found ==> i == av.len(),
    ensures
        found ==> first_alarm(av, name) == Some(i),
        !found ==> first_alarm(av, name) is None,
    decreases av.len() - i,
{
    if !found {
        assert(av.subrange(0, i) =~= av);
    } else if i + 1 == av.len() {
        assert(av.drop_last() =~= av.subrange(0, i));
    } else {
        assert(av.subrange(0, i + 1).drop_last() =~= av.subrange(0, i));
        assert(first_alarm(av.subrange(0, i + 1), name) == Some(i));
        lemma_first_alarm_extend(av, name, i + 1, i);
    }
}

proof fn lemma_first_alarm_extend(
    av: Seq<(Seq<char>, AlarmSeverity, Seq<char>, bool)>,
    name: Seq<char>,
    j: int,
    i: int,
)
    requires
        0 <= j <= av.len(),
        first_alarm(av.subrange(0, j), name) == Some(i),
    ensures
        first_alarm(av, name) == Some(i),
    decreases av.len() - j,
{
    if j == av.len() {
        assert(av.subrange(0, j) =~= av);
    } else {
        assert(av.subrange(0, j + 1).drop_last() =~= av.subrange(0, j));
        lemma_first_alarm_extend(av, name, j + 1, i);
    }
}

/// What a room tells its agents.
#[derive(Clone, Debug)]
pub struct RoomContext {
    pub room_name: String,
    /// In millionths of a dollar.
    pub budget_remaining: i64,
    pub compile_count: u64,
    /// In millionths.
    pub error_rate: i64,
    pub gpu_available: bool,
    pub active_alarms: usize,
}


/// Setting a sensor changes the reading of that sensor only.
proof fn lemma_sensor_set_lookup(s: Seq<(Seq<char>, Reading)>, name: Seq<char>, v: Reading, other: Seq<char>)
    ensures
        sensor_lookup(sensor_set(s, name, v), name) == Some(v),
        other != name ==> sensor_lookup(sensor_set(s, name, v), other) == sensor_lookup(s, other),
{
    lemma_sensor_index_props(s, name);
    lemma_sensor_index_props(s, other);
    let t = sensor_set(s, name, v);
    lemma_sensor_index_props(t, name);
    lemma_sensor_index_props(t, other);
    match sensor_index(s, name) {
        Some(i) => {
            lemma_index_after_update(s, name, v, i, name);
            if other != name {
                lemma_index_after_update(s, name, v, i, other);
            }
        },
        None => {
            assert(t.last().0 == name);
            assert(t.drop_last() =~= s);
        },
    }
}

proof fn lemma_index_after_update(s: Seq<(Seq<char>, Reading)>, name: Seq<char>, v: Reading, i: int, key: Seq<char>)
    requires
        sensor_index(s, name) == Some(i),
        0 <= i < s.len(),
        s[i].0 == name,
    ensures
        sensor_index(s.update(i, (name, v)), key) == sensor_index(s, key),
    decreases s.len(),
{
    let t = s.update(i, (name, v));
    if s.len() > 0 {
        if i == s.len() - 1 {
            assert(t.drop_last() =~= s.drop_last());
        } else {
            assert(t.drop_last() =~= s.drop_last().update(i, (name, v)));
            assert(t.last() == s.last());
            if s.last().0 != key {
                lemma_index_after_update(s.drop_last(), name, v, i, key);
            }
        }
    }
}

/// A task an agent carried out.
#[derive(Clone, Debug)]
pub struct TaskRecord {
    pub task_type: String,
    pub duration_ms: u64,
    pub success: bool,
}

/// An agent's performance: tasks done, success rate in millionths (one
/// million when there are none) and mean duration (rounded down; zero when
/// there are none).
#[derive(Clone, Debug)]
pub struct AgentPerformance {
    pub agent_name: String,
    pub total_tasks: usize,
    pub success_rate: i64,
    pub avg_duration_ms: u64,
}

pub open spec fn task_view(t: TaskRecord) -> (Seq<char>, u64, bool) {
    (t.task_type@, t.duration_ms, t.success)
}

pub open spec fn failures(ts: Seq<TaskRecord>) -> nat
    decreases ts.len(),
{
    if ts.len() == 0 {
        0
    } else {
        failures(ts.drop_last()) + if ts.last().success {
            0nat
        } else {
            1nat
        }
    }
}

pub open spec fn total_duration(ts: Seq<TaskRecord>) -> nat
    decreases ts.len(),
{
    if ts.len() == 0 {
        0
    } else {
        total_duration(ts.drop_last()) + ts.last().duration_ms as nat
    }
}

/// The most recent tasks the error rate looks at.
pub const RECENT_TASKS: usize = 100;

/// The last (at most `RECENT_TASKS`) tasks.
pub open spec fn recent(ts: Seq<TaskRecord>) -> Seq<TaskRecord> {
    if ts.len() > RECENT_TASKS {
        ts.subrange(ts.len() - RECENT_TASKS, ts.len() as int)
    } else {
        ts
    }
}

/// The share of failures among the recent tasks, in millionths (rounded down).
pub open spec fn error_rate_of(ts: Seq<TaskRecord>) -> i64 {
    (failures(recent(ts)) * 1_000_000 / recent(ts).len()) as i64
}

/// The message of the alarm for a failed task.
pub open spec fn failure_message(task: Seq<char>, duration_ms: u64) -> Seq<char> {
    "Task '"@ + task + "' failed after "@ + nat_text(duration_ms as nat) + "ms"@
}

/// An agent working in a room.
pub struct PlatoAgent {
    pub name: String,
    pub room: PlatoRoom,
    pub task_history: Vec<TaskRecord>,
}

impl PlatoAgent {
    pub fn new(name: &str, room: PlatoRoom) -> (a: Self)
        ensures
            a.name@ == name@,
            a.room == room,
            a.task_history@.len() == 0,
    {
        PlatoAgent { name: string_of(chars_of(name).as_slice()), room, task_history: Vec::new() }
    }

    /// An agent in a fresh shader compilation room.
    pub fn shader_compiler_agent(name: &str) -> (a: Self)
        ensures
            a.name@ == name@,
            a.room.wf(),
            a.room.name@ == "shader_compiler"@,
            sensors_view(a.room.sensors@) == shader_sensors(),
            a.room.history@.len() == 0,
            a.room.alarms@.len() == 0,
            a.room.threshold() == 10_000,
            a.task_history@.len() == 0,
    {
        Self::new(name, PlatoRoom::shader_compiler_room())
    }

    /// Records a task; counts it in `compile_count` when that sensor holds a
    /// whole number, updates `error_rate` from the recent tasks (subject to
    /// the deadband), and raises a `compile_failed` warning when it failed.
    pub fn execute_task(&mut self, task: &str, success: bool, duration_ms: u64)
        requires
            old(self).room.wf(),
            sensor_lookup(sensors_view(old(self).room.sensors@), "compile_count"@) != Some(
                Reading::Int(i64::MAX),
            ),
        ensures
            final(self).room.wf(),
            final(self).name@ == old(self).name@,
            final(self).task_history@.map_values(|t: TaskRecord| task_view(t)) == old(
                self,
            ).task_history@.map_values(|t: TaskRecord| task_view(t)).push((task@, duration_ms, success)),
            sensor_lookup(sensors_view(final(self).room.sensors@), "compile_count"@) == match sensor_lookup(
                sensors_view(old(self).room.sensors@),
                "compile_count"@,
            ) {
                Some(Reading::Int(c)) => Some(Reading::Int((c + 1) as i64)),
                other => other,
            },
            ({
                let rate = error_rate_of(final(self).task_history@);
                let before = sensor_lookup(sensors_view(old(self).room.sensors@), "error_rate"@);
                sensor_lookup(sensors_view(final(self).room.sensors@), "error_rate"@) == if passes_deadband(
                    before,
                    Reading::Float(rate),
                    old(self).room.threshold(),
                ) {
                    Some(Reading::Float(rate))
                } else {
                    before
                }
            }),
            alarms_view(final(self).room.alarms@) == if success {
                alarms_view(old(self).room.alarms@)
            } else {
                alarms_view(old(self).room.alarms@).push(
                    ("compile_failed"@, AlarmSeverity::Warning, failure_message(task@, duration_ms), true),
                )
            },
            final(self).room.threshold() == old(self).room.threshold(),
    {
        let ghost tv = self.task_history@.map_values(|t: TaskRecord| task_view(t));
        self.task_history.push(
            TaskRecord { task_type: string_of(chars_of(task).as_slice()), duration_ms, success },
        );
        assert(self.task_history@.map_values(|t: TaskRecord| task_view(t)) =~= tv.push(
            (task@, duration_ms, success),
        ));
        proof {
            reveal_strlit("compile_count");
            reveal_strlit("error_rate");
            assert("compile_count"@ != "error_rate"@) by {
                assert("compile_count"@.len() != "error_rate"@.len());
            }
        }
        let ghost sv0 = sensors_view(self.room.sensors@);
        let count = match self.room.get_sensor("compile_count") {
            Some(SensorValue::Int(c)) => Some(*c),
            _ => None,
        };
        match count {
            Some(c) => {
                self.room.set_sensor("compile_count", SensorValue::Int(c + 1));
                proof {
                    lemma_sensor_set_lookup(sv0, "compile_count"@, Reading::Int((c + 1) as i64), "error_rate"@);
                }
            },
            None => {},
        }
        let ghost sv1 = sensors_view(self.room.sensors@);
        assert(sensor_lookup(sv1, "error_rate"@) == sensor_lookup(sv0, "error_rate"@));
        let n = self.task_history.len();
        let start = if n > RECENT_TASKS { n - RECENT_TASKS } else { 0 };
        let mut errors: usize = 0;
        let mut i: usize = start;
        let ghost rec = recent(self.task_history@);
        assert(rec =~= self.task_history@.subrange(start as int, n as int));
        while i < n
            invariant
                start <= i <= n,
                n == self.task_history@.len(),
                n - start <= RECENT_TASKS,
                rec == self.task_history@.subrange(start as int, n as int),
                errors == failures(self.task_history@.subrange(start as int, i as int)),
                errors <= i - start,
            decreases n - i,
        {
            assert(self.task_history@.subrange(start as int, i + 1).drop_last() =~= self.task_history@.subrange(
                start as int,
                i as int,
            ));
            if !self.task_history[i].success {
                errors = errors + 1;
            }
            i = i + 1;
        }
        let rate = (errors as u64 * 1_000_000 / (n - start) as u64) as i64;
        assert(rate == error_rate_of(self.task_history@));
        let passed = self.room.set_sensor("error_rate", SensorValue::Float(rate));
        proof {
            if passed {
                lemma_sensor_set_lookup(sv1, "error_rate"@, Reading::Float(rate), "compile_count"@);
            }
        }
        if !success {
            let mut msg: Vec<char> = Vec::new();
            push_str(&mut msg, "Task '");
            push_str(&mut msg, task);
            push_str(&mut msg, "' failed after ");
            push_nat(&mut msg, duration_ms as u128);
            push_str(&mut msg, "ms");
            assert(msg@ =~= failure_message(task@, duration_ms));
            self.room.trigger_alarm("compile_failed", AlarmSeverity::Warning, string_of(msg.as_slice()));
        }
    }

    /// Tasks done, success rate and mean duration.
    pub fn performance_summary(&self) -> (p: AgentPerformance)
        requires
            total_duration(self.task_history@) <= u64::MAX,
        ensures
            p.agent_name@ == self.name@,
            p.total_tasks == self.task_history@.len(),
            p.success_rate == if self.task_history@.len() == 0 {
                1_000_000
            } else {
                ((self.task_history@.len() - failures(self.task_history@)) * 1_000_000
                    / (self.task_history@.len() as int)) as i64
            },
            p.avg_duration_ms == if self.task_history@.len() == 0 {
                0
            } else {
                (total_duration(self.task_history@) / self.task_history@.len()) as u64
            },
    {
        let total = self.task_history.len();
        let mut fails: usize = 0;
        let mut sum: u64 = 0;
        let mut i: usize = 0;
        while i < total
            invariant
                i <= total,
                total == self.task_history@.len(),
                total_duration(self.task_history@) <= u64::MAX,
                fails == failures(self.task_history@.subrange(0, i as int)),
                fails <= i,
                sum == total_duration(self.task_history@.subrange(0, i as int)),
            decreases total - i,
        {
            assert(self.task_history@.subrange(0, i + 1).drop_last() =~= self.task_history@.subrange(0, i as int));
            proof {
                lemma_total_duration_prefix(self.task_history@, i + 1);
            }
            if !self.task_history[i].success {
                fails = fails + 1;
            }
            sum = sum + self.task_history[i].duration_ms;
            i = i + 1;
        }
        assert(self.task_history@.subrange(0, total as int) =~= self.task_history@);
        let success_rate = if total > 0 {
            let q = (total - fails) as u128 * 1_000_000 / total as u128;
            assert(q <= 1_000_000) by (nonlinear_arith)
                requires
                    q == ((total - fails) as int * 1_000_000) / (total as int),
                    fails <= total,
                    total > 0,
            ;
            q as i64
        } else {
            1_000_000
        };
        let avg = if total > 0 { sum / total as u64 } else { 0 };
        AgentPerformance {
            agent_name: self.name.clone(),
            total_tasks: total,
            success_rate,
            avg_duration_ms: avg,
        }
    }
}

proof fn lemma_total_duration_prefix(ts: Seq<TaskRecord>, k: int)
    requires
        0 <= k <= ts.len(),
    ensures
        total_duration(ts.subrange(0, k)) <= total_duration(ts),
    decreases ts.len() - k,
{
    if k < ts.len() {
        lemma_total_duration_prefix(ts, k + 1);
        assert(ts.subrange(0, k + 1).drop_last() =~= ts.subrange(0, k));
    } else {
        assert(ts.subrange(0, k) =~= ts);
    }
}

} // verus!
