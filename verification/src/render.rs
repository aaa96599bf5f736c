//! What a frame is drawn with.

use vstd::prelude::*;
use vstd::string::{StrSliceExecFns, StringExecFns};

use crate::text::{contains, occurs_at};
use crate::boot_time::Uptime;
use crate::disk::{Disk, DiskView};
use crate::service::{Service, ServiceView};
use crate::version_info::VersionInfo;

verus! {

/// The colour for something that is up or down: bright green for up, red
/// for down, as the parameters of an SGR escape sequence.
pub open spec fn color_for_up_down(is_up: bool) -> Seq<char> {
    if is_up {
        "1;32"@
    } else {
        "0;31"@
    }
}

/// The colour for something that is up or down.
pub fn get_color_for_up_down(is_up: bool) -> (color: &'static str)
    ensures
        color@ == color_for_up_down(is_up),
{
    if is_up {
        "1;32"
    } else {
        "0;31"
    }
}

/// How a frame starts.
#[derive(Clone, Copy, Debug, PartialEq, Eq, Structural)]
pub enum FrameStart {
    /// The screen is cleared and the identity lines are drawn again.
    Redraw,
    /// The cursor goes below the identity lines, which stay as they are.
    InPlace,
}

/// What is remembered from one frame to the next.
#[derive(Clone, Copy, Debug)]
pub struct Screen {
    previous_terminal_size: Option<(u16, u16)>,
}

/// The escape sequence that clears the whole screen.
pub open spec fn full_clear() -> Seq<char> {
    "\x1B[2J"@
}

/// How the frame for a terminal of the given size starts: in place if the
/// frame before it was drawn for the same size, with a redraw otherwise.
pub open spec fn frame_start(previous: Option<(u16, u16)>, size: (u16, u16)) -> FrameStart {
    if previous == Some(size) {
        FrameStart::InPlace
    } else {
        FrameStart::Redraw
    }
}

/// What a frame begins with. A redraw homes the cursor, clears the screen
/// and draws the identity lines; otherwise the cursor is put on the third
/// line, below them.
pub open spec fn prefix(start: FrameStart, identity: Seq<char>) -> Seq<char> {
    match start {
        FrameStart::Redraw => "\x1B[1;1H\x1B[2J"@ + identity,
        FrameStart::InPlace => "\x1B[3;1H"@,
    }
}

/// What is written once before the first frame: the cursor is homed, the
/// scrollback is cleared and line wrapping is switched off.
pub fn startup() -> (s: &'static str)
    ensures
        s@ == "\x1B[1;1H\x1B[3J\x1B[?7l"@,
{
    "\x1B[1;1H\x1B[3J\x1B[?7l"
}

impl View for Screen {
    type V = Option<(u16, u16)>;

    /// The size of the terminal that the last frame was drawn for.
    closed spec fn view(&self) -> Option<(u16, u16)> {
        self.previous_terminal_size
    }
}

impl Screen {
    /// A screen on which nothing was drawn yet.
    pub fn new() -> (screen: Self)
        ensures
            screen@ is None,
    {
        Screen { previous_terminal_size: None }
    }

    /// Starts the frame for a terminal of the given size and remembers
    /// the size.
    ///
    /// In-place drawing is right only while the number of lines of a
    /// frame stays the same, which it does unless a file system is mounted
    /// or an interface gets another address; resizing the terminal then
    /// forces a redraw.
    pub fn begin(&mut self, size: (u16, u16), identity: &VersionInfo, out: &mut String) -> (start:
        FrameStart)
        ensures
            start == frame_start(old(self)@, size),
            final(self)@ == Some(size),
            final(out)@ == old(out)@ + prefix(start, identity.lines()),
    {
        let same: bool = match self.previous_terminal_size {
            Some(previous) => previous.0 == size.0 && previous.1 == size.1,
            None => false,
        };
        self.previous_terminal_size = Some(size);
        if same {
            out.append("\x1B[3;1H");
            FrameStart::InPlace
        } else {
            let ghost before = out@;
            out.append("\x1B[1;1H\x1B[2J");
            identity.write_lines(out);
            assert(out@ =~= before + prefix(FrameStart::Redraw, identity.lines()));
            FrameStart::Redraw
        }
    }
}

/// How the frames of a run of cycles start, given the sizes that the
/// terminal had in these cycles and the size `previous` before them.
pub open spec fn starts(previous: Option<(u16, u16)>, sizes: Seq<(u16, u16)>) -> Seq<FrameStart> {
    Seq::new(
        sizes.len(),
        |i: int|
            frame_start(
                if i == 0 {
                    previous
                } else {
                    Some(sizes[i - 1])
                },
                sizes[i],
            ),
    )
}

/// While the terminal keeps its size no frame clears the screen, and the
/// frame after a change of size always does.
pub proof fn lemma_redraw_on_change_only(
    previous: Option<(u16, u16)>,
    sizes: Seq<(u16, u16)>,
    i: int,
)
    requires
        1 <= i < sizes.len(),
    ensures
        sizes[i] == sizes[i - 1] ==> starts(previous, sizes)[i] == FrameStart::InPlace,
        sizes[i] != sizes[i - 1] ==> starts(previous, sizes)[i] == FrameStart::Redraw,
        starts(previous, sizes)[0] == frame_start(previous, sizes[0]),
{
}

/// A frame that is drawn in place starts without the sequence that clears
/// the screen.
pub proof fn lemma_in_place_never_clears(identity: Seq<char>)
    ensures
        !contains(prefix(FrameStart::InPlace, identity), full_clear()),
{
    reveal_strlit("\x1B[3;1H");
    reveal_strlit("\x1B[2J");
    let p = prefix(FrameStart::InPlace, identity);
    let c = full_clear();
    assert forall|j: int| !occurs_at(p, c, j) by {
        if occurs_at(p, c, j) {
            assert(p.subrange(j, j + 4)[0] == c[0]);
            assert(p.subrange(j, j + 4)[2] == c[2]);
        }
    }
}

/// A redraw clears the screen exactly once, given identity lines without
/// an escape character: the clearing sequence stands in what the frame
/// starts with at one place and at no other.
pub proof fn lemma_redraw_clears_once(identity: Seq<char>)
    requires
        forall|i: int| 0 <= i < identity.len() ==> identity[i] != '\x1B',
    ensures
        forall|j: int|
            occurs_at(prefix(FrameStart::Redraw, identity), full_clear(), j) <==> j == 6,
{
    reveal_strlit("\x1B[1;1H\x1B[2J");
    reveal_strlit("\x1B[2J");
    let p = prefix(FrameStart::Redraw, identity);
    let c = full_clear();
    assert(p.subrange(6, 10) =~= c);
    assert forall|j: int| occurs_at(p, c, j) implies j == 6 by {
        assert(p.subrange(j, j + 4)[0] == c[0]);
        assert(p.subrange(j, j + 4)[2] == c[2]);
        if j >= 10 {
            assert(p[j] == identity[j - 10]);
        }
    }
}

/// The character of a decimal digit.
pub open spec fn digit_char(d: nat) -> char {
    if d == 0 {
        '0'
    } else if d == 1 {
        '1'
    } else if d == 2 {
        '2'
    } else if d == 3 {
        '3'
    } else if d == 4 {
        '4'
    } else if d == 5 {
        '5'
    } else if d == 6 {
        '6'
    } else if d == 7 {
        '7'
    } else if d == 8 {
        '8'
    } else {
        '9'
    }
}

/// A number in decimal digits, without leading zeros.
pub open spec fn decimal(n: nat) -> Seq<char>
    decreases n,
{
    if n < 10 {
        seq![digit_char(n)]
    } else {
        decimal(n / 10).push(digit_char(n % 10))
    }
}

/// A number in at least two decimal digits.
pub open spec fn decimal2(n: nat) -> Seq<char> {
    if n < 10 {
        seq!['0'] + decimal(n)
    } else {
        decimal(n)
    }
}

/// `count` spaces.
pub open spec fn spaces(count: nat) -> Seq<char> {
    Seq::new(count, |i: int| ' ')
}

/// `s` behind as many spaces as it lacks to `width` characters.
pub open spec fn right_aligned(s: Seq<char>, width: nat) -> Seq<char> {
    if s.len() >= width {
        s
    } else {
        spaces((width - s.len()) as nat) + s
    }
}

/// `s` before as many spaces as it lacks to `width` characters.
pub open spec fn left_aligned(s: Seq<char>, width: nat) -> Seq<char> {
    if s.len() >= width {
        s
    } else {
        s + spaces((width - s.len()) as nat)
    }
}

fn digit_str(d: u64) -> (s: &'static str)
    requires
        d < 10,
    ensures
        s@ == seq![digit_char(d as nat)],
{
    proof {
        reveal_strlit("0");
        reveal_strlit("1");
        reveal_strlit("2");
        reveal_strlit("3");
        reveal_strlit("4");
        reveal_strlit("5");
        reveal_strlit("6");
        reveal_strlit("7");
        reveal_strlit("8");
        reveal_strlit("9");
    }
    let s: &'static str = if d == 0 {
        "0"
    } else if d == 1 {
        "1"
    } else if d == 2 {
        "2"
    } else if d == 3 {
        "3"
    } else if d == 4 {
        "4"
    } else if d == 5 {
        "5"
    } else if d == 6 {
        "6"
    } else if d == 7 {
        "7"
    } else if d == 8 {
        "8"
    } else {
        "9"
    };
    assert(s@ =~= seq![digit_char(d as nat)]);
    s
}

/// Appends `n` in decimal digits.
pub fn write_decimal(out: &mut String, n: u64)
    ensures
        final(out)@ == old(out)@ + decimal(n as nat),
    decreases n,
{
    if n >= 10 {
        write_decimal(out, n / 10);
    }
    out.append(digit_str(n % 10));
    assert(out@ =~= old(out)@ + decimal(n as nat));
}

/// Appends `n` in at least two decimal digits.
pub fn write_decimal2(out: &mut String, n: u64)
    ensures
        final(out)@ == old(out)@ + decimal2(n as nat),
{
    if n < 10 {
        proof {
            reveal_strlit("0");
        }
        out.append("0");
    }
    write_decimal(out, n);
    assert(out@ =~= old(out)@ + decimal2(n as nat));
}

/// Appends `count` spaces.
pub fn write_spaces(out: &mut String, count: usize)
    ensures
        final(out)@ == old(out)@ + spaces(count as nat),
{
    let mut i: usize = 0;
    assert(out@ =~= old(out)@ + spaces(0));
    while i < count
        invariant
            i <= count,
            out@ == old(out)@ + spaces(i as nat),
        decreases count - i,
    {
        proof {
            reveal_strlit(" ");
        }
        out.append(" ");
        i = i + 1;
        assert(out@ =~= old(out)@ + spaces(i as nat));
    }
}

/// Appends `s`, with spaces before it up to `width` characters.
pub fn write_right_aligned(out: &mut String, s: &str, width: usize)
    ensures
        final(out)@ == old(out)@ + right_aligned(s@, width as nat),
{
    let len: usize = s.unicode_len();
    if len < width {
        write_spaces(out, width - len);
    }
    out.append(s);
    assert(out@ =~= old(out)@ + right_aligned(s@, width as nat));
}

/// Appends `s`, with spaces behind it up to `width` characters.
pub fn write_left_aligned(out: &mut String, s: &str, width: usize)
    ensures
        final(out)@ == old(out)@ + left_aligned(s@, width as nat),
{
    let len: usize = s.unicode_len();
    out.append(s);
    if len < width {
        write_spaces(out, width - len);
    }
    assert(out@ =~= old(out)@ + left_aligned(s@, width as nat));
}

/// The line that shows the uptime. Like every line below the identity
/// lines it first clears the line it is written to.
pub open spec fn uptime_line(uptime: Uptime) -> Seq<char> {
    "\x1B[KUptime        : "@ + decimal(uptime.days as nat) + " days "@ + decimal2(
        uptime.hours as nat,
    ) + ":"@ + decimal2(uptime.minutes as nat) + ":"@ + decimal2(uptime.seconds as nat)
}

/// Appends the line that shows the uptime.
pub fn write_uptime(out: &mut String, uptime: Uptime)
    ensures
        final(out)@ == old(out)@ + uptime_line(uptime),
{
    out.append("\x1B[KUptime        : ");
    write_decimal(out, uptime.days);
    out.append(" days ");
    write_decimal2(out, uptime.hours);
    out.append(":");
    write_decimal2(out, uptime.minutes);
    out.append(":");
    write_decimal2(out, uptime.seconds);
    assert(out@ =~= old(out)@ + uptime_line(uptime));
}

/// How the services are laid out: in columns, filled from top to bottom.
#[derive(Clone, Copy, Debug, PartialEq, Eq, Structural)]
pub struct ServiceGrid {
    /// Number of columns.
    pub per_row: usize,
    /// Number of rows.
    pub rows: usize,
}

/// Width of the label that stands before the first column.
pub const LABEL_WIDTH: usize = 16;

/// The grid for `count` services whose longest name has `name_len`
/// characters, on a terminal that is `width` characters wide. Every column
/// takes the longest name and a space on either side. `None` where not
/// even one column fits.
pub open spec fn grid(width: u16, name_len: usize, count: usize) -> Option<ServiceGrid> {
    if width < LABEL_WIDTH {
        None
    } else {
        let per_row = (width - LABEL_WIDTH) / (name_len + 2);
        if per_row == 0 {
            None
        } else {
            Some(
                ServiceGrid {
                    per_row: per_row as usize,
                    rows: ((count + per_row - 1) / per_row) as usize,
                },
            )
        }
    }
}

impl ServiceGrid {
    /// The grid for `count` services; see `grid`.
    pub fn new(width: u16, name_len: usize, count: usize) -> (r: Option<ServiceGrid>)
        ensures
            r == grid(width, name_len, count),
    {
        if (width as usize) < LABEL_WIDTH {
            return None;
        }
        let room: usize = width as usize - LABEL_WIDTH;
        if name_len >= room {
            assert((width - LABEL_WIDTH) / (name_len + 2) == 0) by (nonlinear_arith)
                requires
                    0 <= width - LABEL_WIDTH <= name_len,
            ;
            return None;
        }
        let per_row: usize = room / (name_len + 2);
        if per_row == 0 {
            return None;
        }
        let rows: usize = if count == 0 {
            0
        } else {
            (count - 1) / per_row + 1
        };
        assert(rows == (count + per_row - 1) / (per_row as int)) by (nonlinear_arith)
            requires
                per_row > 0,
                rows == if count == 0 {
                    0
                } else {
                    (count - 1) / (per_row as int) + 1
                },
        ;
        Some(ServiceGrid { per_row, rows })
    }

    /// The service that stands in row `row` and column `col`.
    pub open spec fn spec_index(self, row: usize, col: usize, count: usize) -> Option<usize> {
        if row < self.rows && col < self.per_row && row + self.rows * col < count {
            Some((row + self.rows * col) as usize)
        } else {
            None
        }
    }

    /// The service that stands in row `row` and column `col`, if the grid
    /// has this cell and a service in it.
    pub fn index(&self, row: usize, col: usize, count: usize) -> (r: Option<usize>)
        ensures
            r == self.spec_index(row, col, count),
    {
        if row >= self.rows || col >= self.per_row {
            return None;
        }
        let rows: usize = self.rows;
        assert(rows * col <= 0xFFFF_FFFF_FFFF_FFFF * 0xFFFF_FFFF_FFFF_FFFF) by (nonlinear_arith)
            requires
                0 <= rows <= 0xFFFF_FFFF_FFFF_FFFF,
                0 <= col <= 0xFFFF_FFFF_FFFF_FFFF,
        ;
        let at: u128 = row as u128 + rows as u128 * col as u128;
        if at < count as u128 {
            Some(at as usize)
        } else {
            None
        }
    }
}

/// What every line below the first begins with: the cursor goes to the
/// next line, and the line is cleared before anything is written to it.
pub open spec fn line_start() -> Seq<char> {
    "\n\x1B[K"@
}

/// What a line begins with that goes on with the section above it: a
/// cleared line, indented by the width of the labels.
pub open spec fn continuation_start() -> Seq<char> {
    "\n\x1B[K                "@
}

/// Begins the line of a section with the section's label.
pub fn write_section(out: &mut String, label: &str)
    ensures
        final(out)@ == old(out)@ + line_start() + label@,
{
    out.append("\n\x1B[K");
    out.append(label);
}

/// Begins a line that goes on with the section above it.
pub fn write_continuation(out: &mut String)
    ensures
        final(out)@ == old(out)@ + continuation_start(),
{
    out.append("\n\x1B[K                ");
}

/// No line clears the screen: neither the start of a section's line nor
/// that of a continuation holds the sequence that does.
pub proof fn lemma_lines_never_clear()
    ensures
        !contains(line_start(), full_clear()),
        !contains(continuation_start(), full_clear()),
{
    reveal_strlit("\n\x1B[K");
    reveal_strlit("\n\x1B[K                ");
    reveal_strlit("\x1B[2J");
    let c = full_clear();
    let a = line_start();
    let b = continuation_start();
    assert forall|j: int| !occurs_at(a, c, j) by {
        if occurs_at(a, c, j) {
            assert(a.subrange(j, j + 4)[0] == c[0]);
        }
    }
    assert forall|j: int| !occurs_at(b, c, j) by {
        if occurs_at(b, c, j) {
            assert(b.subrange(j, j + 4)[0] == c[0]);
            assert(b.subrange(j, j + 4)[2] == c[2]);
        }
    }
}

/// Text in the colour for something that is up or down.
pub open spec fn colored(is_up: bool, text: Seq<char>) -> Seq<char> {
    "\x1B["@ + color_for_up_down(is_up) + "m"@ + text + "\x1B[0m"@
}

/// What is shown of one disk: name, serial number and whether it passed,
/// in the colour of the verdict.
pub open spec fn disk_text(disk: DiskView, name_width: nat, serial_width: nat) -> Seq<char> {
    colored(
        disk.smart_passed,
        right_aligned(disk.name, name_width) + " "@ + left_aligned(
            disk.serial_number,
            serial_width,
        ) + " "@ + if disk.smart_passed {
            "PASSED"@
        } else {
            "FAILED"@
        },
    )
}

/// The disks from place `k` on, each on a line of its own.
pub open spec fn disk_lines(disks: Seq<DiskView>, k: int, name_width: nat, serial_width: nat) -> Seq<
    char,
>
    decreases disks.len() - k,
{
    if k < 0 || k >= disks.len() {
        Seq::empty()
    } else {
        (if k > 0 {
            continuation_start()
        } else {
            Seq::empty()
        }) + disk_text(disks[k], name_width, serial_width) + disk_lines(
            disks,
            k + 1,
            name_width,
            serial_width,
        )
    }
}

/// The section that shows the disks.
pub open spec fn smart_section(disks: Seq<DiskView>, name_width: nat, serial_width: nat) -> Seq<
    char,
> {
    line_start() + "SMART status  : "@ + disk_lines(disks, 0, name_width, serial_width)
}

/// The views of a list of disks.
pub open spec fn disk_views(disks: Seq<Disk>) -> Seq<DiskView> {
    Seq::new(disks.len(), |i: int| disks[i]@)
}

/// Appends text in the colour for something that is up or down.
fn write_colored_start(out: &mut String, is_up: bool)
    ensures
        final(out)@ == old(out)@ + "\x1B["@ + color_for_up_down(is_up) + "m"@,
{
    out.append("\x1B[");
    out.append(get_color_for_up_down(is_up));
    out.append("m");
}

/// Appends what is shown of one disk.
fn write_disk(out: &mut String, disk: &Disk, name_width: usize, serial_width: usize)
    ensures
        final(out)@ == old(out)@ + disk_text(disk@, name_width as nat, serial_width as nat),
{
    write_colored_start(out, disk.smart_passed());
    write_right_aligned(out, disk.name(), name_width);
    out.append(" ");
    write_left_aligned(out, disk.serial_number(), serial_width);
    out.append(" ");
    out.append(
        if disk.smart_passed() {
            "PASSED"
        } else {
            "FAILED"
        },
    );
    out.append("\x1B[0m");
    assert(out@ =~= old(out)@ + disk_text(disk@, name_width as nat, serial_width as nat));
}

/// Appends the section that shows the disks; names are padded to
/// `name_width` characters and serial numbers to `serial_width`.
pub fn write_smart_status(
    out: &mut String,
    disks: &Vec<Disk>,
    name_width: usize,
    serial_width: usize,
)
    ensures
        final(out)@ == old(out)@ + smart_section(
            disk_views(disks@),
            name_width as nat,
            serial_width as nat,
        ),
{
    let ghost views = disk_views(disks@);
    let ghost nw = name_width as nat;
    let ghost sw = serial_width as nat;
    write_section(out, "SMART status  : ");
    let ghost start = out@;
    let mut k: usize = 0;
    while k < disks.len()
        invariant
            k <= disks@.len(),
            views == disk_views(disks@),
            nw == name_width,
            sw == serial_width,
            out@ + disk_lines(views, k as int, nw, sw) == start + disk_lines(views, 0, nw, sw),
        decreases disks@.len() - k,
    {
        let ghost before = out@;
        assert(views[k as int] == disks@[k as int]@);
        if k > 0 {
            write_continuation(out);
        }
        write_disk(out, &disks[k], name_width, serial_width);
        proof {
            let text = disk_text(views[k as int], nw, sw);
            let lead = if k > 0 {
                continuation_start()
            } else {
                Seq::<char>::empty()
            };
            assert(out@ =~= before + lead + text);
            let rest = disk_lines(views, k + 1, nw, sw);
            assert(disk_lines(views, k as int, nw, sw) == lead + text + rest);
            assert(before + (lead + text + rest) =~= (before + lead + text) + rest);
        }
        k = k + 1;
    }
    assert(out@ + Seq::<char>::empty() =~= out@);
    assert(start + disk_lines(views, 0, nw, sw) =~= old(out)@ + smart_section(views, nw, sw));
}

/// What is shown of one service: its name, padded, in the colour for
/// running or not, with a space on either side.
pub open spec fn service_cell(service: ServiceView, name_width: nat) -> Seq<char> {
    " "@ + colored(service.is_running, left_aligned(service.name, name_width)) + " "@
}

/// The cells of row `row` from column `col` on. A row ends where the grid
/// has no more services for it.
pub open spec fn service_row(
    services: Seq<ServiceView>,
    grid: ServiceGrid,
    row: usize,
    col: int,
    name_width: nat,
) -> Seq<char>
    decreases grid.per_row - col,
{
    if col < 0 || col >= grid.per_row {
        Seq::empty()
    } else {
        match grid.spec_index(row, col as usize, services.len() as usize) {
            None => Seq::empty(),
            Some(at) => service_cell(services[at as int], name_width) + service_row(
                services,
                grid,
                row,
                col + 1,
                name_width,
            ),
        }
    }
}

/// What a row of services below the first begins with: a cleared line,
/// indented so that the cells align with those of the first row.
pub open spec fn service_row_start() -> Seq<char> {
    "\n\x1B[K               "@
}

/// The rows of the grid from row `row` on.
pub open spec fn service_rows(
    services: Seq<ServiceView>,
    grid: ServiceGrid,
    row: int,
    name_width: nat,
) -> Seq<char>
    decreases grid.rows - row,
{
    if row < 0 || row >= grid.rows {
        Seq::empty()
    } else {
        (if row > 0 && grid.spec_index(row as usize, 0, services.len() as usize) is Some {
            service_row_start()
        } else {
            Seq::empty()
        }) + service_row(services, grid, row as usize, 0, name_width) + service_rows(
            services,
            grid,
            row + 1,
            name_width,
        )
    }
}

/// The section that shows the services.
pub open spec fn services_section(services: Seq<ServiceView>, grid: ServiceGrid, name_width: nat) -> Seq<
    char,
> {
    line_start() + "Services      :"@ + service_rows(services, grid, 0, name_width)
}

/// The views of a list of services.
pub open spec fn service_views(services: Seq<Service>) -> Seq<ServiceView> {
    Seq::new(services.len(), |i: int| services[i]@)
}

/// Appends what is shown of one service.
fn write_service_cell(out: &mut String, service: &Service, name_width: usize)
    ensures
        final(out)@ == old(out)@ + service_cell(service@, name_width as nat),
{
    out.append(" ");
    write_colored_start(out, service.is_running());
    write_left_aligned(out, service.name(), name_width);
    out.append("\x1B[0m");
    out.append(" ");
    assert(out@ =~= old(out)@ + service_cell(service@, name_width as nat));
}

/// Appends the cells of one row.
fn write_service_row(
    out: &mut String,
    services: &Vec<Service>,
    grid: ServiceGrid,
    row: usize,
    name_width: usize,
)
    ensures
        final(out)@ == old(out)@ + service_row(
            service_views(services@),
            grid,
            row,
            0,
            name_width as nat,
        ),
{
    let ghost views = service_views(services@);
    let ghost nw = name_width as nat;
    let count: usize = services.len();
    let mut j: usize = 0;
    let mut open: bool = true;
    while open && j < grid.per_row
        invariant
            j <= grid.per_row,
            views == service_views(services@),
            count == services@.len(),
            nw == name_width,
            open ==> out@ + service_row(views, grid, row, j as int, nw) == old(out)@
                + service_row(views, grid, row, 0, nw),
            !open ==> out@ == old(out)@ + service_row(views, grid, row, 0, nw),
        decreases grid.per_row - j, open as int,
    {
        let ghost before = out@;
        match grid.index(row, j, count) {
            None => {
                assert(before + Seq::<char>::empty() =~= before);
                open = false;
            },
            Some(at) => {
                assert(views[at as int] == services@[at as int]@);
                write_service_cell(out, &services[at], name_width);
                proof {
                    let cell = service_cell(views[at as int], nw);
                    let rest = service_row(views, grid, row, j + 1, nw);
                    assert(service_row(views, grid, row, j as int, nw) == cell + rest);
                    assert(before + (cell + rest) =~= (before + cell) + rest);
                }
                j = j + 1;
            },
        }
    }
    assert(out@ + Seq::<char>::empty() =~= out@);
}

/// Appends the section that shows the services in the given grid; names
/// are padded to `name_width` characters.
pub fn write_services(
    out: &mut String,
    services: &Vec<Service>,
    grid: ServiceGrid,
    name_width: usize,
)
    ensures
        final(out)@ == old(out)@ + services_section(
            service_views(services@),
            grid,
            name_width as nat,
        ),
{
    let ghost views = service_views(services@);
    let ghost nw = name_width as nat;
    let count: usize = services.len();
    write_section(out, "Services      :");
    let ghost start = out@;
    let mut i: usize = 0;
    while i < grid.rows
        invariant
            i <= grid.rows,
            views == service_views(services@),
            count == services@.len(),
            nw == name_width,
            out@ + service_rows(views, grid, i as int, nw) == start + service_rows(
                views,
                grid,
                0,
                nw,
            ),
        decreases grid.rows - i,
    {
        let ghost before = out@;
        let ghost lead = if i > 0 && grid.spec_index(i, 0, count) is Some {
            service_row_start()
        } else {
            Seq::<char>::empty()
        };
        if i > 0 && grid.index(i, 0, count).is_some() {
            out.append("\n\x1B[K               ");
        }
        write_service_row(out, services, grid, i, name_width);
        proof {
            let row = service_row(views, grid, i, 0, nw);
            let rest = service_rows(views, grid, i + 1, nw);
            assert(out@ =~= before + lead + row);
            assert(service_rows(views, grid, i as int, nw) == lead + row + rest);
            assert(before + (lead + row + rest) =~= (before + lead + row) + rest);
        }
        i = i + 1;
    }
    assert(out@ + Seq::<char>::empty() =~= out@);
    assert(start + service_rows(views, grid, 0, nw) =~= old(out)@ + services_section(
        views,
        grid,
        nw,
    ));
}

} // verus!
