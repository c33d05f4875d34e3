use vstd::prelude::*;

verus! {

/// One line of a GPIO chip.
#[derive(Debug)]
pub struct GpioLineInfo {
    pub line_offset: u32,
    pub name: Option<String>,
    pub consumer: Option<String>,
    pub direction: String,
    pub active_state: String,
    pub used: bool,
}

/// The runtime line descriptor reads back every field of the model.
pub open spec fn gpio_line_matches(r: GpioLineInfo, m: crate::models::GpioLineInfo) -> bool {
    &&& r.line_offset == m.line_offset
    &&& r.name == m.name
    &&& r.consumer == m.consumer
    &&& r.direction@ == m.direction@
    &&& r.active_state@ == m.active_state@
    &&& r.used == m.used
}

impl GpioLineInfo {
    pub fn from_model(m: &crate::models::GpioLineInfo) -> (r: GpioLineInfo)
        ensures
            gpio_line_matches(r, *m),
    {
        GpioLineInfo {
            line_offset: m.line_offset,
            name: crate::peripherals::clone_opt_string(&m.name),
            consumer: crate::peripherals::clone_opt_string(&m.consumer),
            direction: m.direction.clone(),
            active_state: m.active_state.clone(),
            used: m.used,
        }
    }
}

/// A GPIO chip as mounted into the application.
#[derive(Debug)]
pub struct GpioPeripheral {
    pub chip_name: String,
    pub label: String,
    pub num_lines: u32,
    pub device_nodes: Vec<String>,
    pub lines: Vec<GpioLineInfo>,
}

/// The runtime descriptor reads back every field of the model, line by line.
pub open spec fn gpio_matches(r: GpioPeripheral, m: crate::models::GpioPeripheral) -> bool {
    &&& r.chip_name@ == m.chip_name@
    &&& r.label@ == m.label@
    &&& r.num_lines == m.num_lines
    &&& r.device_nodes@ == m.device_nodes@
    &&& r.lines@.len() == m.lines@.len()
    &&& forall|i: int|
        0 <= i < r.lines@.len() ==> gpio_line_matches(#[trigger] r.lines@[i], m.lines@[i])
}

impl GpioPeripheral {
    pub fn from_model(m: &crate::models::GpioPeripheral) -> (r: GpioPeripheral)
        ensures
            gpio_matches(r, *m),
    {
        let mut lines: Vec<GpioLineInfo> = Vec::new();
        let n: usize = m.lines.len();
        let mut i: usize = 0;
        while i < n
            invariant
                n == m.lines@.len(),
                0 <= i <= n,
                lines@.len() == i,
                forall|j: int|
                    0 <= j < i ==> gpio_line_matches(#[trigger] lines@[j], m.lines@[j]),
            decreases n - i,
        {
            lines.push(GpioLineInfo::from_model(&m.lines[i]));
            i = i + 1;
        }
        GpioPeripheral {
            chip_name: m.chip_name.clone(),
            label: m.label.clone(),
            num_lines: m.num_lines,
            device_nodes: crate::peripherals::clone_strings(&m.device_nodes),
            lines,
        }
    }
}

} // verus!
