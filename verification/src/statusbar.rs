//! What the status item shows: which toggles are on, the text of each box and
//! the boxes in their order.
//!
//! Numbers are formatted by the program (`{:.0}°`, `{:.0}%`, `{:.1}/{:.0}G`);
//! these functions decide which texts appear and how they are combined.

use vstd::prelude::*;
use crate::metrics::MetricsFlags;

verus! {

/// Position of each toggle in the menu's list of check items.
pub const T_CPU_TEMP: usize = 0;
pub const T_GPU_TEMP: usize = 1;
pub const T_CPU_USE: usize = 2;
pub const T_GPU_USE: usize = 3;
pub const T_RAM: usize = 4;

/// Which statistics the user wants shown.
#[derive(Debug, Clone, Copy, PartialEq, Eq)]
pub struct Toggles {
    pub cpu_temp: bool,
    pub gpu_temp: bool,
    pub cpu_usage: bool,
    pub gpu_usage: bool,
    pub ram: bool,
}

/// A toggle is on when it is checked, and before its menu item exists.
pub open spec fn toggle_on(item: Option<bool>) -> bool {
    match item {
        Some(checked) => checked,
        None => true,
    }
}

impl Toggles {
    /// The toggles from the check state of the five menu items (absent before
    /// the menu is built), in the order `T_CPU_TEMP` .. `T_RAM`.
    pub fn from_items(items: [Option<bool>; 5]) -> (t: Toggles)
        ensures
            t.cpu_temp == toggle_on(items@[T_CPU_TEMP as int]),
            t.gpu_temp == toggle_on(items@[T_GPU_TEMP as int]),
            t.cpu_usage == toggle_on(items@[T_CPU_USE as int]),
            t.gpu_usage == toggle_on(items@[T_GPU_USE as int]),
            t.ram == toggle_on(items@[T_RAM as int]),
    {
        let on = |item: Option<bool>| -> (b: bool)
            ensures
                b == toggle_on(item),
            {
                match item {
                    Some(checked) => checked,
                    None => true,
                }
            };
        Toggles {
            cpu_temp: on(items[T_CPU_TEMP]),
            gpu_temp: on(items[T_GPU_TEMP]),
            cpu_usage: on(items[T_CPU_USE]),
            gpu_usage: on(items[T_GPU_USE]),
            ram: on(items[T_RAM]),
        }
    }

    /// The usage figures to query in this poll.
    pub fn metrics_flags(&self) -> (f: MetricsFlags)
        ensures
            f == (MetricsFlags { cpu_usage: self.cpu_usage, gpu_usage: self.gpu_usage, ram: self.ram }),
    {
        MetricsFlags { cpu_usage: self.cpu_usage, gpu_usage: self.gpu_usage, ram: self.ram }
    }
}

/// The text of a missing figure: `--`.
pub open spec fn or_dash(text: Option<Seq<char>>) -> Seq<char> {
    match text {
        Some(t) => t,
        None => "--"@,
    }
}

pub open spec fn str_view(text: Option<&str>) -> Option<Seq<char>> {
    match text {
        Some(t) => Some(t@),
        None => None,
    }
}

/// What a CPU or GPU box shows: nothing when both its toggles are off, the
/// temperature, the usage, or both as `temperature/usage`, with `--` for a
/// figure that could not be read.
pub open spec fn cell_text_spec(
    want_temp: bool,
    want_usage: bool,
    temp: Option<Seq<char>>,
    usage: Option<Seq<char>>,
) -> Option<Seq<char>> {
    if want_temp && want_usage {
        Some(or_dash(temp) + "/"@ + or_dash(usage))
    } else if want_temp {
        Some(or_dash(temp))
    } else if want_usage {
        Some(or_dash(usage))
    } else {
        None
    }
}

fn text_or_dash(text: Option<&str>) -> (s: String)
    ensures
        s@ == or_dash(str_view(text)),
{
    match text {
        Some(t) => String::from_str(t),
        None => String::from_str("--"),
    }
}

/// The text of a CPU or GPU box, from its formatted temperature and usage.
pub fn cell_text(want_temp: bool, want_usage: bool, temp: Option<&str>, usage: Option<&str>) -> (text:
    Option<String>)
    ensures
        text matches Some(t) ==> cell_text_spec(want_temp, want_usage, str_view(temp), str_view(usage))
            == Some(t@),
        text is None <==> cell_text_spec(
            want_temp,
            want_usage,
            str_view(temp),
            str_view(usage),
        ) is None,
{
    if want_temp && want_usage {
        let mut s = text_or_dash(temp);
        s.append("/");
        let u = text_or_dash(usage);
        s.append(u.as_str());
        Some(s)
    } else if want_temp {
        Some(text_or_dash(temp))
    } else if want_usage {
        Some(text_or_dash(usage))
    } else {
        None
    }
}

/// One box of the status item: a small label over a value.
#[derive(Debug, Clone, Copy, PartialEq, Eq)]
pub struct BoxSpec<'a> {
    pub label: &'a str,
    pub value: &'a str,
}

/// The box for `label` if it has a value.
pub open spec fn box_entry(label: Seq<char>, value: Option<Seq<char>>) -> Seq<(Seq<char>, Seq<char>)> {
    match value {
        Some(v) => seq![(label, v)],
        None => seq![],
    }
}

/// The boxes shown, as (label, value) texts: CPU, then GPU, then RAM, each
/// only when it has a value.
pub open spec fn boxes_spec(
    cpu: Option<Seq<char>>,
    gpu: Option<Seq<char>>,
    ram: Option<Seq<char>>,
) -> Seq<(Seq<char>, Seq<char>)> {
    box_entry("CPU"@, cpu) + box_entry("GPU"@, gpu) + box_entry("RAM"@, ram)
}

pub open spec fn box_texts(boxes: Seq<BoxSpec>) -> Seq<(Seq<char>, Seq<char>)> {
    boxes.map_values(|b: BoxSpec| (b.label@, b.value@))
}

fn push_box<'a>(boxes: &mut Vec<BoxSpec<'a>>, label: &'a str, value: Option<&'a str>)
    ensures
        box_texts(final(boxes)@) == box_texts(old(boxes)@) + box_entry(label@, str_view(value)),
{
    if let Some(v) = value {
        boxes.push(BoxSpec { label, value: v });
    }
    assert(box_texts(final(boxes)@) =~= box_texts(old(boxes)@) + box_entry(label@, str_view(value)));
}

/// The boxes of the status item for the CPU, GPU and RAM texts that are shown.
pub fn status_boxes<'a>(cpu: Option<&'a str>, gpu: Option<&'a str>, ram: Option<&'a str>) -> (boxes:
    Vec<BoxSpec<'a>>)
    ensures
        box_texts(boxes@) == boxes_spec(str_view(cpu), str_view(gpu), str_view(ram)),
{
    let mut boxes: Vec<BoxSpec<'a>> = Vec::new();
    assert(box_texts(boxes@) =~= Seq::<(Seq<char>, Seq<char>)>::empty());
    push_box(&mut boxes, "CPU", cpu);
    push_box(&mut boxes, "GPU", gpu);
    push_box(&mut boxes, "RAM", ram);
    assert(box_texts(boxes@) =~= boxes_spec(str_view(cpu), str_view(gpu), str_view(ram)));
    boxes
}

/// The status item is shown only when it has a box, and only then redrawn.
pub fn status_item_visible(boxes: &Vec<BoxSpec>) -> (visible: bool)
    ensures
        visible == (boxes@.len() > 0),
{
    boxes.len() > 0
}

/// Law: with every toggle off there is no box, and the status item is hidden.
pub proof fn lemma_nothing_enabled_hides_item(
    cpu_temp: Option<Seq<char>>,
    cpu_usage: Option<Seq<char>>,
    gpu_temp: Option<Seq<char>>,
    gpu_usage: Option<Seq<char>>,
)
    ensures
        boxes_spec(
            cell_text_spec(false, false, cpu_temp, cpu_usage),
            cell_text_spec(false, false, gpu_temp, gpu_usage),
            None,
        ).len() == 0,
{
    assert(boxes_spec(None, None, None) =~= Seq::<(Seq<char>, Seq<char>)>::empty());
}

/// Law: a statistic shows a box exactly when one of its toggles is on, and the
/// boxes keep the order CPU, GPU, RAM.
pub proof fn lemma_box_per_enabled_statistic(
    want_cpu_temp: bool,
    want_cpu_usage: bool,
    want_gpu_temp: bool,
    want_gpu_usage: bool,
    want_ram: bool,
    texts: (Option<Seq<char>>, Option<Seq<char>>, Option<Seq<char>>, Option<Seq<char>>),
    ram: Seq<char>,
)
    ensures
        ({
            let cpu = cell_text_spec(want_cpu_temp, want_cpu_usage, texts.0, texts.1);
            let gpu = cell_text_spec(want_gpu_temp, want_gpu_usage, texts.2, texts.3);
            let boxes = boxes_spec(cpu, gpu, if want_ram { Some(ram) } else { None });
            &&& boxes.len() == (if want_cpu_temp || want_cpu_usage { 1int } else { 0 }) + (if want_gpu_temp
                || want_gpu_usage { 1int } else { 0 }) + (if want_ram { 1int } else { 0 })
            &&& (want_cpu_temp || want_cpu_usage) ==> boxes[0].0 == "CPU"@
            &&& (want_ram) ==> boxes.last().0 == "RAM"@
        }),
{
}


/// Law: each box carries its own statistic's text under its own label: the
/// CPU box comes first when there is a CPU text, the GPU box next when there
/// is a GPU text, the RAM box last when there is a RAM text, and there is no
/// other box.
pub proof fn lemma_each_box_shows_its_own_text(
    cpu: Option<Seq<char>>,
    gpu: Option<Seq<char>>,
    ram: Option<Seq<char>>,
)
    ensures
        ({
            let boxes = boxes_spec(cpu, gpu, ram);
            let n_cpu: int = if cpu is Some { 1 } else { 0 };
            let n_gpu: int = if gpu is Some { 1 } else { 0 };
            let n_ram: int = if ram is Some { 1 } else { 0 };
            &&& boxes.len() == n_cpu + n_gpu + n_ram
            &&& cpu matches Some(c) ==> boxes[0] == ("CPU"@, c)
            &&& gpu matches Some(g) ==> boxes[n_cpu] == ("GPU"@, g)
            &&& ram matches Some(r) ==> boxes[n_cpu + n_gpu] == ("RAM"@, r)
        }),
{
}

/// Law: a toggle is on exactly when its item is checked, and on before the
/// item exists; a box shows the temperature and usage texts joined by `/`
/// when both toggles are on, one of them when one is, `--` for a missing text,
/// and nothing when both are off.
pub proof fn lemma_toggles_and_cell_texts(
    checked: bool,
    temp: Option<Seq<char>>,
    usage: Option<Seq<char>>,
)
    ensures
        toggle_on(Some(checked)) == checked,
        toggle_on(None),
        cell_text_spec(true, true, temp, usage) == Some(
            (if temp is Some {
                temp.unwrap()
            } else {
                "--"@
            }) + "/"@ + (if usage is Some {
                usage.unwrap()
            } else {
                "--"@
            }),
        ),
        cell_text_spec(true, false, temp, usage) == Some(
            if temp is Some {
                temp.unwrap()
            } else {
                "--"@
            },
        ),
        cell_text_spec(false, true, temp, usage) == Some(
            if usage is Some {
                usage.unwrap()
            } else {
                "--"@
            },
        ),
        cell_text_spec(false, false, temp, usage) is None,
{
}

} // verus!
