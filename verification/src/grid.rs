//! Funge-space: a rectangular, mutable grid of characters with toroidal
//! addressing, expansion on out-of-bounds writes, and a load-time snapshot
//! used for reset.

use crate::vector::FungeVector;
use vstd::prelude::*;

verus! {

/// The program grid. Rows all have length `width`; a snapshot of the
/// load-time contents is kept for reset. `expand` says whether writes
/// beyond the current bounds grow the grid or are rejected.
pub struct FungeGrid {
    /// The current contents, row by row.
    pub chars: Vec<Vec<char>>,
    /// The contents as loaded, row by row; never mutated after load.
    pub og_chars: Vec<Vec<char>>,
    /// The length of every row of `chars`.
    pub width: usize,
    /// The number of rows of `chars`.
    pub height: usize,
    /// Whether out-of-bounds writes may grow the grid.
    pub expand: bool,
    /// Positions to mark when the grid is displayed.
    pub highlights: Vec<FungeVector>,
}

impl FungeGrid {
    /// Well-formedness: the dimensions describe the rows exactly, fit in
    /// the coordinate type, and the snapshot is itself rectangular.
    pub open spec fn wf(&self) -> bool {
        &&& self.chars@.len() == self.height
        &&& 1 <= self.width <= 0x8000_0000
        &&& 1 <= self.height <= 0x8000_0000
        &&& forall|y: int|
            0 <= y < self.chars@.len() ==> (#[trigger] self.chars@[y])@.len() == self.width
        &&& 1 <= self.og_chars@.len() <= 0x8000_0000
        &&& 1 <= self.og_chars@[0]@.len() <= 0x8000_0000
        &&& forall|y: int|
            0 <= y < self.og_chars@.len() ==> (#[trigger] self.og_chars@[y])@.len()
                == self.og_chars@[0]@.len()
    }

    /// The character at a coordinate: the stored cell inside the bounds,
    /// blank space everywhere else.
    pub open spec fn cell(&self, x: int, y: int) -> char {
        if 0 <= y < self.chars@.len() && 0 <= x < self.chars@[y]@.len() {
            self.chars@[y]@[x]
        } else {
            ' '
        }
    }

    /// The load-time character at a coordinate, blank space outside the
    /// load-time bounds.
    pub open spec fn og_cell(&self, x: int, y: int) -> char {
        if 0 <= y < self.og_chars@.len() && 0 <= x < self.og_chars@[y]@.len() {
            self.og_chars@[y]@[x]
        } else {
            ' '
        }
    }

    /// The full width of the grid.
    pub fn width(&self) -> (r: usize)
        ensures
            r == self.width,
    {
        self.width
    }

    /// The full height of the grid.
    pub fn height(&self) -> (r: usize)
        ensures
            r == self.height,
    {
        self.height
    }

    /// The character at a position. Positions with a negative coordinate
    /// read as blank space; non-negative positions must be in bounds.
    pub fn char_at(&self, pos: FungeVector) -> (r: char)
        requires
            self.wf(),
            pos.0 >= 0 && pos.1 >= 0 ==> pos.0 < self.width && pos.1 < self.height,
        ensures
            r == self.cell(pos.0 as int, pos.1 as int),
            pos.0 < 0 || pos.1 < 0 ==> r == ' ',
    {
        if pos.0 < 0 || pos.1 < 0 {
            return ' ';
        }
        self.chars[pos.1 as usize][pos.0 as usize]
    }

    /// The character at any position: the stored cell inside the bounds,
    /// blank space everywhere else (negative or beyond the bounds).
    pub fn char_at_or_space(&self, pos: FungeVector) -> (r: char)
        requires
            self.wf(),
        ensures
            r == self.cell(pos.0 as int, pos.1 as int),
    {
        if pos.0 < 0 || pos.1 < 0 {
            return ' ';
        }
        let x = pos.0 as usize;
        let y = pos.1 as usize;
        if x < self.width && y < self.height {
            self.chars[y][x]
        } else {
            ' '
        }
    }

    /// The wrapped position one delta step from a position: each
    /// coordinate is reduced by the always-positive remainder against the
    /// grid's dimensions, so the result never escapes the bounds.
    pub fn cell_ahead(&self, pos: FungeVector, delta: FungeVector) -> (r: FungeVector)
        requires
            self.wf(),
        ensures
            r.0 as int == (pos.0 + delta.0) % (self.width as int),
            r.1 as int == (pos.1 + delta.1) % (self.height as int),
            0 <= r.0 < self.width,
            0 <= r.1 < self.height,
    {
        FungeVector(
            wrap_coord(pos.0, delta.0, self.width),
            wrap_coord(pos.1, delta.1, self.height),
        )
    }

    /// The wrapped position one motion step from the pointer's position.
    pub fn cell_ahead_ip(&self, ip: &crate::pointer::InstructionPointer) -> (r: FungeVector)
        requires
            self.wf(),
        ensures
            r.0 as int == (ip.pos.0 + ip.delta.0) % (self.width as int),
            r.1 as int == (ip.pos.1 + ip.delta.1) % (self.height as int),
            0 <= r.0 < self.width,
            0 <= r.1 < self.height,
    {
        self.cell_ahead(ip.pos, ip.delta)
    }

    /// Search the orbit ahead of a position for the first cell that is
    /// neither blank nor a `;` marker: the position and character of the
    /// first such cell, or `None` when a full orbit holds none.
    pub fn find_runnable_ahead(&self, pos: FungeVector, delta: FungeVector) -> (r: Option<
        (FungeVector, char),
    >)
        requires
            self.wf(),
        ensures
            find_result_ok(*self, pos, delta, r),
            r is None ==> forall|k: int|
                1 <= k <= self.width * self.height ==> !runnable(
                    self.cell(
                        #[trigger] orbit(*self, pos, delta, k as nat).0,
                        orbit(*self, pos, delta, k as nat).1,
                    ),
                ),
    {
        proof {
            assert(self.width <= 0x8000_0000 && self.height <= 0x8000_0000);
            assert((self.width as u64) * (self.height as u64) <= 0x8000_0000u64 * 0x8000_0000u64)
                by (nonlinear_arith)
                requires
                    self.width <= 0x8000_0000 && self.height <= 0x8000_0000,
            ;
        }
        let limit: u64 = (self.width as u64) * (self.height as u64);
        let mut cur = pos;
        let mut k: u64 = 0;
        while k < limit
            invariant
                self.wf(),
                limit == self.width * self.height,
                0 <= k <= limit,
                k > 0 ==> 0 <= cur.0 < self.width && 0 <= cur.1 < self.height,
                (cur.0 as int, cur.1 as int) == orbit(*self, pos, delta, k as nat),
                forall|j: int|
                    1 <= j <= k ==> !runnable(
                        self.cell(
                            #[trigger] orbit(*self, pos, delta, j as nat).0,
                            orbit(*self, pos, delta, j as nat).1,
                        ),
                    ),
            decreases limit - k,
        {
            let next = self.cell_ahead(cur, delta);
            let ghost k0 = k as nat;
            cur = next;
            k += 1;
            proof {
                assert(orbit(*self, pos, delta, (k0 + 1) as nat) == (
                    cur.0 as int,
                    cur.1 as int,
                ));
            }
            let c = self.char_at(cur);
            if c != ' ' && c != ';' {
                proof {
                    let kw: int = k as int;
                    assert(first_runnable(*self, pos, delta, kw, cur, c));
                    let rr: Option<(FungeVector, char)> = Some((cur, c));
                    assert(rr->0 == (cur, c));
                    assert((rr->0).0 == cur && (rr->0).1 == c);
                    assert(first_runnable(*self, pos, delta, kw, (rr->0).0, (rr->0).1));
                    assert(find_result_ok(*self, pos, delta, rr));
                }
                return Some((cur, c));
            }
        }
        None
    }

    /// The first runnable character ahead of a position: blank cells and
    /// `;` markers are skipped with wraparound. Some cell of the orbit
    /// must be runnable.
    pub fn runnable_char_ahead(&self, pos: FungeVector, delta: FungeVector) -> (r: char)
        requires
            self.wf(),
            exists|k: int|
                1 <= k <= self.width * self.height && runnable(
                    self.cell(
                        #[trigger] orbit(*self, pos, delta, k as nat).0,
                        orbit(*self, pos, delta, k as nat).1,
                    ),
                ),
        ensures
            runnable(r),
            exists|k: int, p: FungeVector| #[trigger] first_runnable(*self, pos, delta, k, p, r),
    {
        match self.find_runnable_ahead(pos, delta) {
            Some((p, c)) => {
                proof {
                    assert(find_result_ok(*self, pos, delta, Some((p, c))));
                }
                c
            },
            None => {
                proof {
                    assert(false);
                }
                ' '
            },
        }
    }

    /// Search from a position (including the position itself) for the
    /// first cell that is not blank space: its position and character, or
    /// `None` when the whole orbit is blank.
    pub fn find_nonblank_from(&self, pos: FungeVector, delta: FungeVector) -> (r: Option<
        (FungeVector, char),
    >)
        requires
            self.wf(),
            0 <= pos.0 < self.width,
            0 <= pos.1 < self.height,
        ensures
            ({
                let pc = r->0;
                r is Some ==> exists|k: int| #[trigger] first_nonblank(
                    *self,
                    pos,
                    delta,
                    k,
                    pc.0,
                    pc.1,
                )
            }),
            r is None ==> forall|k: int|
                0 <= k <= self.width * self.height ==> self.cell(
                    #[trigger] orbit(*self, pos, delta, k as nat).0,
                    orbit(*self, pos, delta, k as nat).1,
                ) == ' ',
    {
        proof {
            assert((self.width as u64) * (self.height as u64) <= 0x8000_0000u64 * 0x8000_0000u64)
                by (nonlinear_arith)
                requires
                    self.width <= 0x8000_0000 && self.height <= 0x8000_0000,
            ;
        }
        let limit: u64 = (self.width as u64) * (self.height as u64);
        let mut cur = pos;
        let mut k: u64 = 0;
        loop
            invariant
                self.wf(),
                limit == self.width * self.height,
                0 <= k <= limit,
                0 <= cur.0 < self.width && 0 <= cur.1 < self.height,
                (cur.0 as int, cur.1 as int) == orbit(*self, pos, delta, k as nat),
                forall|j: int|
                    0 <= j < k ==> self.cell(
                        #[trigger] orbit(*self, pos, delta, j as nat).0,
                        orbit(*self, pos, delta, j as nat).1,
                    ) == ' ',
            decreases limit + 1 - k,
        {
            let c = self.char_at(cur);
            if c != ' ' {
                proof {
                    let kw: int = k as int;
                    assert(first_nonblank(*self, pos, delta, kw, cur, c));
                    let rr: Option<(FungeVector, char)> = Some((cur, c));
                    assert((rr->0).0 == cur && (rr->0).1 == c);
                    assert(first_nonblank(*self, pos, delta, kw, (rr->0).0, (rr->0).1));
                }
                return Some((cur, c));
            }
            if k >= limit {
                return None;
            }
            let next = self.cell_ahead(cur, delta);
            let ghost k0 = k as nat;
            cur = next;
            k += 1;
            proof {
                assert(orbit(*self, pos, delta, (k0 + 1) as nat) == (
                    cur.0 as int,
                    cur.1 as int,
                ));
            }
        }
    }

    /// Search the orbit strictly ahead of a position for the first `;`
    /// marker: the step count that reaches it, or `None` when the orbit
    /// holds none.
    pub fn find_marker_ahead(&self, pos: FungeVector, delta: FungeVector) -> (r: Option<
        FungeVector,
    >)
        requires
            self.wf(),
        ensures
            r matches Some(p) ==> exists|k: int| #[trigger] first_marker(*self, pos, delta, k)
                && orbit(*self, pos, delta, k as nat) == (p.0 as int, p.1 as int) && 0 <= p.0
                < self.width && 0 <= p.1 < self.height,
            r is None ==> forall|k: int|
                1 <= k <= self.width * self.height ==> self.cell(
                    #[trigger] orbit(*self, pos, delta, k as nat).0,
                    orbit(*self, pos, delta, k as nat).1,
                ) != ';',
    {
        proof {
            assert((self.width as u64) * (self.height as u64) <= 0x8000_0000u64 * 0x8000_0000u64)
                by (nonlinear_arith)
                requires
                    self.width <= 0x8000_0000 && self.height <= 0x8000_0000,
            ;
        }
        let limit: u64 = (self.width as u64) * (self.height as u64);
        let mut cur = pos;
        let mut k: u64 = 0;
        while k < limit
            invariant
                self.wf(),
                limit == self.width * self.height,
                0 <= k <= limit,
                k > 0 ==> 0 <= cur.0 < self.width && 0 <= cur.1 < self.height,
                (cur.0 as int, cur.1 as int) == orbit(*self, pos, delta, k as nat),
                forall|j: int|
                    1 <= j <= k ==> self.cell(
                        #[trigger] orbit(*self, pos, delta, j as nat).0,
                        orbit(*self, pos, delta, j as nat).1,
                    ) != ';',
            decreases limit - k,
        {
            let next = self.cell_ahead(cur, delta);
            let ghost k0 = k as nat;
            cur = next;
            k += 1;
            proof {
                assert(orbit(*self, pos, delta, (k0 + 1) as nat) == (
                    cur.0 as int,
                    cur.1 as int,
                ));
            }
            let c = self.char_at(cur);
            if c == ';' {
                proof {
                    let kw: int = k as int;
                    assert(first_marker(*self, pos, delta, kw));
                    let rr: Option<FungeVector> = Some(cur);
                    assert(rr->0 == cur);
                }
                return Some(cur);
            }
        }
        None
    }

    /// Parse text into the grid: one row per line, padded with blank
    /// space to the longest line, and a snapshot kept for reset. The text
    /// must hold at least one line with at least one character, and must
    /// fit the coordinate type.
    pub fn new(text: String, expand: bool) -> (g: FungeGrid)
        requires
            1 <= split_lines(text@).len() <= 0x8000_0000,
            1 <= max_line_len(split_lines(text@)) <= 0x8000_0000,
        ensures
            g.wf(),
            g.width == max_line_len(split_lines(text@)),
            g.height == split_lines(text@).len(),
            g.chars.deep_view() == padded_rows(split_lines(text@), g.width as int),
            g.og_chars.deep_view() == g.chars.deep_view(),
            g.expand == expand,
            g.highlights@.len() == 0,
    {
        let cs = crate::text::str_chars(text.as_str());
        let lines = split_text(&cs);
        let ghost ls = lines.deep_view();
        let width = max_len(&lines);
        let height = lines.len();
        let chars = pad_rows(lines, width);
        let og_chars = copy_rows(&chars);
        proof {
            assert(forall|y: int|
                0 <= y < chars@.len() ==> (#[trigger] chars@[y])@ == chars.deep_view()[y]);
            assert(forall|y: int|
                0 <= y < og_chars@.len() ==> (#[trigger] og_chars@[y])@ == og_chars.deep_view()[y]);
            assert(chars.deep_view().len() == chars@.len());
            assert(chars@.len() == ls.len());
            assert forall|y: int| 0 <= y < chars@.len() implies (#[trigger] chars@[y])@.len()
                == width by {
                lemma_max_line_len_bound(ls, y);
                assert(chars.deep_view()[y] == pad_line(ls[y], width as int));
            }
            assert(og_chars@.len() == chars@.len());
            assert(og_chars@[0]@.len() == width);
        }
        FungeGrid { chars, og_chars, width, height, expand, highlights: Vec::new() }
    }

    /// Reset back to the unmodified load-time grid: the contents and the
    /// dimensions return to their values at load.
    pub fn reset(&mut self)
        requires
            old(self).wf(),
        ensures
            final(self).wf(),
            final(self).og_chars == old(self).og_chars,
            final(self).expand == old(self).expand,
            final(self).highlights == old(self).highlights,
            final(self).chars.deep_view() == old(self).og_chars.deep_view(),
            final(self).width == old(self).og_chars@[0]@.len(),
            final(self).height == old(self).og_chars@.len(),
            forall|x: int, y: int| final(self).cell(x, y) == #[trigger] final(self).og_cell(x, y),
    {
        self.chars = copy_rows(&self.og_chars);
        self.width = self.og_chars[0].len();
        self.height = self.og_chars.len();
    }

    /// The top-left corner where execution starts: the origin, or in
    /// script mode the first row that does not start with `#`, so programs
    /// may begin with shebang-style skip lines.
    pub fn start_pos(&self, script_mode: bool) -> (r: FungeVector)
        requires
            self.wf(),
        ensures
            is_start_pos(*self, script_mode, r),
    {
        if !script_mode {
            return FungeVector(0, 0);
        }
        let mut y: usize = 0;
        while y < self.height
            invariant
                self.wf(),
                script_mode,
                y <= self.height,
                forall|j: int| 0 <= j < y ==> self.cell(0, j) == '#',
            decreases self.height - y,
        {
            if self.chars[y][0] != '#' {
                return FungeVector(0, y as i32);
            }
            y += 1;
        }
        FungeVector(0, 0)
    }

    /// Record the positions of the given pointers for display.
    pub fn highlights(self, selections: &Vec<crate::pointer::InstructionPointer>) -> (g: FungeGrid)
        ensures
            g.chars == self.chars,
            g.og_chars == self.og_chars,
            g.width == self.width,
            g.height == self.height,
            g.expand == self.expand,
            g.highlights@.len() == selections@.len(),
            forall|i: int|
                0 <= i < selections@.len() ==> g.highlights@[i] == selections@[i].pos,
    {
        let mut marks: Vec<FungeVector> = Vec::new();
        let mut i: usize = 0;
        while i < selections.len()
            invariant
                i <= selections@.len(),
                marks@.len() == i,
                forall|k: int| 0 <= k < i ==> marks@[k] == selections@[k].pos,
            decreases selections@.len() - i,
        {
            marks.push(selections[i].pos);
            i += 1;
        }
        FungeGrid { highlights: marks, ..self }
    }

    /// Copy an inclusive rectangular region into a string with a line
    /// break after each row; the empty string for a region that is out of
    /// bounds, inverted, or has a negative corner.
    pub fn read_from(&self, start: FungeVector, end: FungeVector) -> (r: String)
        requires
            self.wf(),
        ensures
            region_ok(*self, start, end) ==> r@ == region_text(
                *self,
                start.0 as int,
                end.0 as int,
                start.1 as int,
                end.1 as int,
            ),
            !region_ok(*self, start, end) ==> r@ == Seq::<char>::empty(),
    {
        if start.is_negative() || end.is_negative() || start.0 > end.0 || start.1 > end.1 {
            return crate::text::chars_to_string(&Vec::new());
        }
        let (left, right, top, bottom) = (
            start.0 as usize,
            end.0 as usize,
            start.1 as usize,
            end.1 as usize,
        );
        if right >= self.width || bottom >= self.height {
            return crate::text::chars_to_string(&Vec::new());
        }
        let mut out: Vec<char> = Vec::new();
        let mut y = top;
        while y <= bottom
            invariant
                self.wf(),
                top <= y <= bottom + 1,
                left <= right < self.width,
                bottom < self.height,
                region_text(*self, left as int, right as int, top as int, bottom as int) =~= out@
                    + region_text(*self, left as int, right as int, y as int, bottom as int),
            decreases bottom + 1 - y,
        {
            let ghost out0 = out@;
            let mut x = left;
            while x <= right
                invariant
                    self.wf(),
                    left <= x <= right + 1,
                    right < self.width,
                    top <= y <= bottom < self.height,
                    out@ == out0 + self.chars@[y as int]@.subrange(left as int, x as int),
                decreases right + 1 - x,
            {
                out.push(self.chars[y][x]);
                x += 1;
                proof {
                    assert(out@ =~= out0 + self.chars@[y as int]@.subrange(
                        left as int,
                        x as int,
                    ));
                }
            }
            out.push('\n');
            y += 1;
            proof {
                assert(out@ =~= out0 + self.chars@[y - 1]@.subrange(left as int, right + 1)
                    + seq!['\n']);
                assert(region_text(
                    *self,
                    left as int,
                    right as int,
                    top as int,
                    bottom as int,
                ) =~= out@ + region_text(
                    *self,
                    left as int,
                    right as int,
                    y as int,
                    bottom as int,
                ));
            }
        }
        crate::text::chars_to_string(&out)
    }

    /// Place text into the grid: a run of writes whose last landing write
    /// at each coordinate decides the cell, with the grid grown to cover
    /// the landing writes where expansion is enabled.
    pub fn place(&mut self, text: String, pos: FungeVector, binary: bool)
        requires
            old(self).wf(),
            text@.len() <= 0x7FFF_FFFF,
        ensures
            final(self).wf(),
            final(self).og_chars == old(self).og_chars,
            final(self).expand == old(self).expand,
            final(self).highlights == old(self).highlights,
            old(self).width <= final(self).width,
            old(self).height <= final(self).height,
            final(self).width == width_after(*old(self), place_writes(text@, pos, binary)),
            final(self).height == height_after(*old(self), place_writes(text@, pos, binary)),
            forall|a: int, b: int|
                #[trigger] final(self).cell(a, b) == cells_after(
                    *old(self),
                    place_writes(text@, pos, binary),
                    a,
                    b,
                ),
    {
        let cs = crate::text::str_chars(text.as_str());
        let mut targets: Vec<(i32, i32, char)> = Vec::new();
        if binary {
            let mut n: usize = 0;
            while n < cs.len()
                invariant
                    n <= cs@.len(),
                    cs@.len() <= 0x7FFF_FFFF,
                    cs@ == text@,
                    targets@ =~= place_writes(text@, pos, true).subrange(0, n as int),
                decreases cs@.len() - n,
            {
                targets.push((crate::vector::sat_add_exec(pos.0, n as i32), pos.1, cs[n]));
                n += 1;
                proof {
                    assert(targets@ =~= place_writes(text@, pos, true).subrange(0, n as int));
                }
            }
            proof {
                assert(targets@ =~= place_writes(text@, pos, true));
            }
        } else {
            let lines = split_text(&cs);
            let ghost ls = split_lines(text@);
            proof {
                lemma_split_lines_bounds(text@);
            }
            let mut j: usize = 0;
            while j < lines.len()
                invariant
                    j <= lines@.len(),
                    lines.deep_view() == ls,
                    ls == split_lines(text@),
                    text@.len() <= 0x7FFF_FFFF,
                    ls.len() <= text@.len() + 1,
                    forall|k: int| 0 <= k < ls.len() ==> (#[trigger] ls[k]).len() <= text@.len(),
                    targets@ == lines_writes(ls, pos, j as int),
                decreases lines@.len() - j,
            {
                let line = &lines[j];
                let ghost base = targets@;
                proof {
                    assert(line@ == lines.deep_view()[j as int]);
                    assert((#[trigger] ls[j as int]).len() <= text@.len());
                }
                let mut i: usize = 0;
                while i < line.len()
                    invariant
                        i <= line@.len(),
                        line@ == ls[j as int],
                        j < ls.len(),
                        ls.len() <= text@.len() + 1,
                        text@.len() <= 0x7FFF_FFFF,
                        line@.len() <= text@.len(),
                        targets@ == base + line_writes(ls[j as int], pos, j as int).subrange(
                            0,
                            i as int,
                        ),
                    decreases line@.len() - i,
                {
                    targets.push(
                        (
                            crate::vector::sat_add_exec(pos.0, i as i32),
                            crate::vector::sat_add_exec(pos.1, j as i32),
                            line[i],
                        ),
                    );
                    i += 1;
                    proof {
                        assert(targets@ =~= base + line_writes(ls[j as int], pos, j as int)
                            .subrange(0, i as int));
                    }
                }
                j += 1;
                proof {
                    assert(line_writes(ls[j - 1], pos, j - 1).subrange(
                        0,
                        ls[j - 1].len() as int,
                    ) =~= line_writes(ls[j - 1], pos, j - 1));
                    assert(targets@ =~= lines_writes(ls, pos, j as int));
                }
            }
            proof {
                assert(targets@ =~= place_writes(text@, pos, false));
            }
        }
        let ghost w = place_writes(text@, pos, binary);
        let ghost g0 = *old(self);
        let mut n: usize = 0;
        while n < targets.len()
            invariant
                n <= targets@.len(),
                targets@ == w,
                g0.wf(),
                self.wf(),
                self.og_chars == g0.og_chars,
                self.expand == g0.expand,
                self.highlights == g0.highlights,
                self.width == width_after(g0, w.subrange(0, n as int)),
                self.height == height_after(g0, w.subrange(0, n as int)),
                g0.width <= self.width,
                g0.height <= self.height,
                !g0.expand ==> self.width == g0.width && self.height == g0.height,
                forall|a: int, b: int|
                    #[trigger] self.cell(a, b) == cells_after(g0, w.subrange(0, n as int), a, b),
            decreases targets@.len() - n,
        {
            let (x, y, c) = targets[n];
            self.set_char(FungeVector(x, y), c);
            n += 1;
            proof {
                let pre = w.subrange(0, n - 1);
                let cur = w.subrange(0, n as int);
                assert(cur.drop_last() =~= pre);
                assert(cur.last() == (x, y, c));
                assert(forall|a: int, b: int|
                    #[trigger] self.cell(a, b) == cells_after(g0, cur, a, b));
            }
        }
        proof {
            assert(w.subrange(0, w.len() as int) =~= w);
        }
    }

    /// Write a character at a position. Negative positions are silently
    /// dropped; in-bounds positions are written in place; positions beyond
    /// the bounds grow the grid (with blank fill) when expansion is
    /// enabled, and are rejected when it is not.
    pub fn set_char(&mut self, pos: FungeVector, c: char)
        requires
            old(self).wf(),
        ensures
            final(self).wf(),
            final(self).og_chars == old(self).og_chars,
            final(self).expand == old(self).expand,
            final(self).highlights == old(self).highlights,
            pos.is_spec_negative() ==> final(self).chars == old(self).chars && final(self).width
                == old(self).width && final(self).height == old(self).height,
            !pos.is_spec_negative() && set_lands(old(self), pos) ==> {
                &&& final(self).width == spec_max(old(self).width as int, pos.0 + 1)
                &&& final(self).height == spec_max(old(self).height as int, pos.1 + 1)
                &&& final(self).cell(pos.0 as int, pos.1 as int) == c
                &&& forall|a: int, b: int|
                    !(a == pos.0 && b == pos.1) ==> final(self).cell(a, b) == old(self).cell(a, b)
            },
            !pos.is_spec_negative() && !set_lands(old(self), pos) ==> final(self).chars == old(
                self,
            ).chars && final(self).width == old(self).width && final(self).height == old(
                self,
            ).height,
    {
        if pos.0 < 0 || pos.1 < 0 {
            return ;
        }
        let x = pos.0 as usize;
        let y = pos.1 as usize;
        if x < self.width && y < self.height {
            let mut row = self.chars.remove(y);
            row.set(x, c);
            self.chars.insert(y, row);
            proof {
                assert(self.chars@ =~= old(self).chars@.update(y as int, self.chars@[y as int]));
                assert(forall|a: int, b: int|
                    !(a == pos.0 && b == pos.1) ==> self.cell(a, b) == old(self).cell(a, b));
            }
        } else if self.expand {
            let target_w = if x + 1 > self.width {
                x + 1
            } else {
                self.width
            };
            let target_h = if y + 1 > self.height {
                y + 1
            } else {
                self.height
            };
            let mut r: usize = 0;
            let ghost mid = *self;
            while r < self.chars.len()
                invariant
                    mid.wf(),
                    r <= self.chars@.len(),
                    self.chars@.len() == mid.chars@.len(),
                    mid.width <= target_w <= 0x8000_0000,
                    forall|j: int|
                        0 <= j < r ==> (#[trigger] self.chars@[j])@ == mid.chars@[j]@ + Seq::new(
                            (target_w - mid.width) as nat,
                            |k: int| ' ',
                        ),
                    forall|j: int| r <= j < self.chars@.len() ==> self.chars@[j] == mid.chars@[j],
                    self.og_chars == mid.og_chars,
                    self.width == mid.width,
                    self.height == mid.height,
                    self.expand == mid.expand,
                    self.highlights == mid.highlights,
                decreases self.chars@.len() - r,
            {
                let mut row = self.chars.remove(r);
                proof {
                    assert(row@ =~= mid.chars@[r as int]@ + Seq::new(
                        (row@.len() - mid.width) as nat,
                        |k: int| ' ',
                    ));
                }
                while row.len() < target_w
                    invariant
                        mid.wf(),
                        r < mid.chars@.len(),
                        mid.width <= target_w,
                        mid.chars@[r as int]@.len() <= row@.len() <= target_w,
                        row@ == mid.chars@[r as int]@ + Seq::new(
                            (row@.len() - mid.width) as nat,
                            |k: int| ' ',
                        ),
                    decreases target_w - row.len(),
                {
                    row.push(' ');
                    proof {
                        assert(row@ =~= mid.chars@[r as int]@ + Seq::new(
                            (row@.len() - mid.width) as nat,
                            |k: int| ' ',
                        ));
                    }
                }
                self.chars.insert(r, row);
                r += 1;
            }
            while self.chars.len() < target_h
                invariant
                    mid.wf(),
                    mid.width <= target_w <= 0x8000_0000,
                    mid.height <= target_h <= 0x8000_0000,
                    mid.chars@.len() <= self.chars@.len() <= target_h,
                    forall|j: int|
                        0 <= j < mid.chars@.len() ==> (#[trigger] self.chars@[j])@ == mid.chars@[j]@
                            + Seq::new((target_w - mid.width) as nat, |k: int| ' '),
                    forall|j: int|
                        mid.chars@.len() <= j < self.chars@.len() ==> (#[trigger] self.chars@[j])@
                            =~= Seq::new(target_w as nat, |k: int| ' '),
                    self.og_chars == mid.og_chars,
                    self.width == mid.width,
                    self.height == mid.height,
                    self.expand == mid.expand,
                    self.highlights == mid.highlights,
                decreases target_h - self.chars@.len(),
            {
                let mut blank: Vec<char> = Vec::new();
                while blank.len() < target_w
                    invariant
                        blank@ =~= Seq::new(blank@.len(), |k: int| ' '),
                        blank@.len() <= target_w,
                    decreases target_w - blank.len(),
                {
                    blank.push(' ');
                    proof {
                        assert(blank@ =~= Seq::new(blank@.len(), |k: int| ' '));
                    }
                }
                self.chars.push(blank);
            }
            self.width = target_w;
            self.height = target_h;
            let mut row = self.chars.remove(y);
            row.set(x, c);
            self.chars.insert(y, row);
            proof {
                assert(forall|a: int, b: int|
                    !(a == pos.0 && b == pos.1) ==> self.cell(a, b) == old(self).cell(a, b));
            }
        }
    }
}

/// The lines of a text, split as a standard line iterator does: lines end
/// at a line feed or at a carriage return followed by a line feed, and a
/// final line ending is optional.
pub open spec fn split_lines(s: Seq<char>) -> Seq<Seq<char>>
    decreases s.len(),
{
    if s.len() == 0 {
        Seq::empty()
    } else if s[0] == '\n' {
        seq![Seq::<char>::empty()] + split_lines(s.drop_first())
    } else if s[0] == '\r' && s.len() > 1 && s[1] == '\n' {
        seq![Seq::<char>::empty()] + split_lines(s.subrange(2, s.len() as int))
    } else {
        let rest = split_lines(s.drop_first());
        if rest.len() == 0 {
            seq![seq![s[0]]]
        } else {
            seq![seq![s[0]] + rest[0]] + rest.drop_first()
        }
    }
}

/// There are at most one more line than characters, and no line is longer
/// than the text.
pub proof fn lemma_split_lines_bounds(s: Seq<char>)
    ensures
        split_lines(s).len() <= s.len() + 1,
        forall|k: int| 0 <= k < split_lines(s).len() ==> (#[trigger] split_lines(s)[k]).len()
            <= s.len(),
    decreases s.len(),
{
    if s.len() == 0 {
    } else if s[0] == '\n' {
        lemma_split_lines_bounds(s.drop_first());
    } else if s[0] == '\r' && s.len() > 1 && s[1] == '\n' {
        lemma_split_lines_bounds(s.subrange(2, s.len() as int));
    } else {
        lemma_split_lines_bounds(s.drop_first());
    }
}

/// The length of the longest of a sequence of lines.
pub open spec fn max_line_len(ls: Seq<Seq<char>>) -> int
    decreases ls.len(),
{
    if ls.len() == 0 {
        0
    } else {
        spec_max(max_line_len(ls.drop_last()), ls.last().len() as int)
    }
}

/// A line padded with blank space to a width.
pub open spec fn pad_line(l: Seq<char>, w: int) -> Seq<char> {
    l + Seq::new((w - l.len()) as nat, |k: int| ' ')
}

/// Lines padded with blank space to a common width.
pub open spec fn padded_rows(ls: Seq<Seq<char>>, w: int) -> Seq<Seq<char>> {
    Seq::new(ls.len(), |y: int| pad_line(ls[y], w))
}

/// Split a text into its lines.
fn split_text(text: &Vec<char>) -> (lines: Vec<Vec<char>>)
    ensures
        lines.deep_view() == split_lines(text@),
{
    let n = text.len();
    let mut lines: Vec<Vec<char>> = Vec::new();
    let mut i: usize = n;
    while i > 0
        invariant
            i <= n,
            n == text@.len(),
            lines.deep_view() == split_lines(text@.subrange(i as int, n as int)),
        decreases i,
    {
        i -= 1;
        let c = text[i];
        let ghost suffix = text@.subrange(i as int, n as int);
        let ghost tail = text@.subrange(i as int + 1, n as int);
        proof {
            assert(suffix[0] == c);
            assert(suffix.drop_first() =~= tail);
        }
        if c == '\n' {
            lines.insert(0, Vec::new());
            proof {
                assert(lines.deep_view() =~~= seq![Seq::<char>::empty()] + split_lines(tail));
            }
        } else if c == '\r' && i + 1 < n && text[i + 1] == '\n' {
            proof {
                let tail2 = text@.subrange(i as int + 2, n as int);
                assert(suffix.subrange(2, suffix.len() as int) =~= tail2);
                assert(tail[0] == '\n');
                assert(tail.drop_first() =~= tail2);
                assert(split_lines(tail) == seq![Seq::<char>::empty()] + split_lines(tail2));
                assert(lines.deep_view() =~~= split_lines(suffix));
            }
        } else {
            proof {
                if c == '\r' && i + 1 < n {
                    assert(tail[0] == text@[i as int + 1]);
                }
            }
            if lines.len() == 0 {
                let mut first: Vec<char> = Vec::new();
                first.push(c);
                lines.push(first);
                proof {
                    assert(lines.deep_view() =~~= seq![seq![c]]);
                }
            } else {
                let mut first = lines.remove(0);
                first.insert(0, c);
                let ghost rest = split_lines(tail);
                proof {
                    assert(first@ =~= seq![c] + rest[0]);
                }
                lines.insert(0, first);
                proof {
                    assert(lines.deep_view() =~~= seq![seq![c] + rest[0]] + rest.drop_first());
                }
            }
        }
    }
    proof {
        assert(text@.subrange(0, n as int) =~= text@);
    }
    lines
}

/// The length of the longest line.
fn max_len(lines: &Vec<Vec<char>>) -> (w: usize)
    ensures
        w == max_line_len(lines.deep_view()),
{
    let mut w: usize = 0;
    let mut i: usize = 0;
    while i < lines.len()
        invariant
            i <= lines@.len(),
            w == max_line_len(lines.deep_view().subrange(0, i as int)),
        decreases lines@.len() - i,
    {
        let l = lines[i].len();
        if l > w {
            w = l;
        }
        i += 1;
        proof {
            assert(lines.deep_view().subrange(0, i as int).drop_last() =~= lines.deep_view()
                .subrange(0, i as int - 1));
        }
    }
    proof {
        assert(lines.deep_view().subrange(0, lines@.len() as int) =~= lines.deep_view());
    }
    w
}

/// Pad every line with blank space to a common width.
fn pad_rows(lines: Vec<Vec<char>>, w: usize) -> (rows: Vec<Vec<char>>)
    requires
        max_line_len(lines.deep_view()) <= w,
    ensures
        rows.deep_view() == padded_rows(lines.deep_view(), w as int),
{
    let ghost ls = lines.deep_view();
    let mut rows: Vec<Vec<char>> = Vec::new();
    let mut i: usize = 0;
    while i < lines.len()
        invariant
            i <= lines@.len(),
            ls == lines.deep_view(),
            max_line_len(ls) <= w,
            rows.deep_view() =~~= padded_rows(ls, w as int).subrange(0, i as int),
        decreases lines@.len() - i,
    {
        proof {
            lemma_max_line_len_bound(ls, i as int);
        }
        let mut row: Vec<char> = Vec::new();
        let src = &lines[i];
        let mut k: usize = 0;
        while k < src.len()
            invariant
                k <= src@.len(),
                src@ == ls[i as int],
                row@ == src@.subrange(0, k as int),
            decreases src@.len() - k,
        {
            row.push(src[k]);
            k += 1;
            proof {
                assert(row@ =~= src@.subrange(0, k as int));
            }
        }
        proof {
            assert(row@ =~= ls[i as int]);
            assert(row@ =~= pad_line(ls[i as int], row@.len() as int));
        }
        while row.len() < w
            invariant
                ls[i as int].len() <= row@.len() <= w,
                row@ == pad_line(ls[i as int], row@.len() as int),
            decreases w - row.len(),
        {
            row.push(' ');
            proof {
                assert(row@ =~= pad_line(ls[i as int], row@.len() as int));
            }
        }
        let ghost prev = rows.deep_view();
        let ghost rowv = row@;
        proof {
            assert(rowv =~= pad_line(ls[i as int], w as int));
        }
        rows.push(row);
        i += 1;
        proof {
            assert(rows.deep_view() =~~= prev.push(rowv));
            assert(padded_rows(ls, w as int).subrange(0, i as int) =~= padded_rows(
                ls,
                w as int,
            ).subrange(0, i - 1).push(pad_line(ls[i - 1], w as int)));
            assert(rows.deep_view() =~~= padded_rows(ls, w as int).subrange(0, i as int));
        }
    }
    proof {
        assert(padded_rows(ls, w as int).subrange(0, ls.len() as int) =~= padded_rows(
            ls,
            w as int,
        ));
    }
    rows
}

/// No line is longer than the longest line.
proof fn lemma_max_line_len_bound(ls: Seq<Seq<char>>, i: int)
    requires
        0 <= i < ls.len(),
    ensures
        ls[i].len() <= max_line_len(ls),
    decreases ls.len(),
{
    if i + 1 == ls.len() {
        assert(ls.last() == ls[i]);
    } else {
        lemma_max_line_len_bound(ls.drop_last(), i);
        assert(ls.drop_last()[i] == ls[i]);
    }
}

/// Copy rows of characters.
fn copy_rows(src: &Vec<Vec<char>>) -> (rows: Vec<Vec<char>>)
    ensures
        rows.deep_view() == src.deep_view(),
        rows@.len() == src@.len(),
        forall|y: int| 0 <= y < rows@.len() ==> (#[trigger] rows@[y])@ == src@[y]@,
{
    let mut rows: Vec<Vec<char>> = Vec::new();
    let mut i: usize = 0;
    while i < src.len()
        invariant
            i <= src@.len(),
            rows@.len() == i,
            forall|y: int| 0 <= y < i ==> (#[trigger] rows@[y])@ == src@[y]@,
        decreases src@.len() - i,
    {
        let line = &src[i];
        let mut row: Vec<char> = Vec::new();
        let mut k: usize = 0;
        while k < line.len()
            invariant
                k <= line@.len(),
                line@ == src@[i as int]@,
                row@ == line@.subrange(0, k as int),
            decreases line@.len() - k,
        {
            row.push(line[k]);
            k += 1;
            proof {
                assert(row@ =~= line@.subrange(0, k as int));
            }
        }
        proof {
            assert(row@ =~= src@[i as int]@);
        }
        rows.push(row);
        i += 1;
    }
    proof {
        assert(rows.deep_view() =~~= src.deep_view());
    }
    rows
}

/// Whether a write at a non-negative position takes effect on this grid:
/// always inside the bounds, and beyond them only when expansion is
/// enabled.
pub open spec fn set_lands(g: &FungeGrid, pos: FungeVector) -> bool {
    (pos.0 < g.width && pos.1 < g.height) || g.expand
}

/// Whether a position is where execution starts on this grid: the origin,
/// or in script mode the first row whose first character is not `#` (the
/// origin again when every row starts with `#`).
pub open spec fn is_start_pos(g: FungeGrid, script_mode: bool, r: FungeVector) -> bool {
    if !script_mode {
        r == (FungeVector(0i32, 0i32))
    } else {
        r.0 == 0 && 0 <= r.1 < g.height && (g.cell(0, r.1 as int) != '#' && (forall|j: int|
            0 <= j < r.1 ==> g.cell(0, j) == '#') || (r.1 == 0 && forall|j: int|
            0 <= j < g.height ==> g.cell(0, j) == '#'))
    }
}

/// Whether a character is runnable: neither blank space nor a `;` marker.
pub open spec fn runnable(c: char) -> bool {
    c != ' ' && c != ';'
}

/// The cell `k` steps from a position (counting the position itself as
/// step 0) is the first one that is not blank space.
pub open spec fn first_nonblank(
    g: FungeGrid,
    pos: FungeVector,
    delta: FungeVector,
    k: int,
    p: FungeVector,
    c: char,
) -> bool {
    &&& 0 <= k <= g.width * g.height
    &&& orbit(g, pos, delta, k as nat) == (p.0 as int, p.1 as int)
    &&& c == g.cell(p.0 as int, p.1 as int)
    &&& c != ' '
    &&& forall|j: int|
        0 <= j < k ==> g.cell(
            #[trigger] orbit(g, pos, delta, j as nat).0,
            orbit(g, pos, delta, j as nat).1,
        ) == ' '
}

/// The cell `k` steps ahead is the first `;` marker of the orbit.
pub open spec fn first_marker(g: FungeGrid, pos: FungeVector, delta: FungeVector, k: int) -> bool {
    &&& 1 <= k <= g.width * g.height
    &&& g.cell(orbit(g, pos, delta, k as nat).0, orbit(g, pos, delta, k as nat).1) == ';'
    &&& forall|j: int|
        1 <= j < k ==> g.cell(
            #[trigger] orbit(g, pos, delta, j as nat).0,
            orbit(g, pos, delta, j as nat).1,
        ) != ';'
}

/// The position `k` wrapped motion steps backwards from a position.
pub open spec fn orbit_rev(g: FungeGrid, pos: FungeVector, delta: FungeVector, k: nat) -> (
    int,
    int,
)
    decreases k,
{
    if k == 0 {
        (pos.0 as int, pos.1 as int)
    } else {
        let p = orbit_rev(g, pos, delta, (k - 1) as nat);
        ((p.0 - delta.0) % (g.width as int), (p.1 - delta.1) % (g.height as int))
    }
}

/// A found result of the runnable-cell search is sound: some step count
/// witnesses it as the first runnable cell of the orbit.
pub open spec fn find_result_ok(
    g: FungeGrid,
    pos: FungeVector,
    delta: FungeVector,
    r: Option<(FungeVector, char)>,
) -> bool {
    r matches Some(pc) ==> exists|k: int| #[trigger] first_runnable(g, pos, delta, k, pc.0, pc.1)
}

/// The cell `k` steps ahead is the first runnable one: it is runnable, in
/// the orbit, and no earlier step reaches a runnable cell.
pub open spec fn first_runnable(
    g: FungeGrid,
    pos: FungeVector,
    delta: FungeVector,
    k: int,
    p: FungeVector,
    c: char,
) -> bool {
    &&& 1 <= k <= g.width * g.height
    &&& orbit(g, pos, delta, k as nat) == (p.0 as int, p.1 as int)
    &&& c == g.cell(p.0 as int, p.1 as int)
    &&& runnable(c)
    &&& forall|j: int|
        1 <= j < k ==> !runnable(
            g.cell(
                #[trigger] orbit(g, pos, delta, j as nat).0,
                orbit(g, pos, delta, j as nat).1,
            ),
        )
}

/// The position `k` wrapped motion steps from a position.
pub open spec fn orbit(g: FungeGrid, pos: FungeVector, delta: FungeVector, k: nat) -> (int, int)
    decreases k,
{
    if k == 0 {
        (pos.0 as int, pos.1 as int)
    } else {
        let p = orbit(g, pos, delta, (k - 1) as nat);
        ((p.0 + delta.0) % (g.width as int), (p.1 + delta.1) % (g.height as int))
    }
}

/// Writing an in-bounds cell and reading the same position back yields
/// exactly the written character.
pub proof fn lemma_write_then_read(g: FungeGrid, pos: FungeVector, c: char)
    requires
        g.wf(),
        0 <= pos.0 < g.width,
        0 <= pos.1 < g.height,
    ensures
        cells_after(g, seq![(pos.0, pos.1, c)], pos.0 as int, pos.1 as int) == c,
{
    let w = seq![(pos.0, pos.1, c)];
    assert(w.last() == (pos.0, pos.1, c));
    assert(write_lands(g, pos.0, pos.1));
    assert(cells_after(g, w, pos.0 as int, pos.1 as int) == c);
}

/// A write beyond the bounds grows the grid to cover it when expansion is
/// enabled, and with expansion disabled it is rejected: no dimension
/// changes and every cell keeps its value.
pub proof fn lemma_expansion_write(g: FungeGrid, pos: FungeVector, c: char)
    requires
        g.wf(),
        !pos.is_spec_negative(),
    ensures
        g.expand ==> width_after(g, seq![(pos.0, pos.1, c)]) == spec_max(
            g.width as int,
            pos.0 + 1,
        ) && height_after(g, seq![(pos.0, pos.1, c)]) == spec_max(g.height as int, pos.1 + 1)
            && cells_after(g, seq![(pos.0, pos.1, c)], pos.0 as int, pos.1 as int) == c,
        !g.expand && !(pos.0 < g.width && pos.1 < g.height) ==> width_after(
            g,
            seq![(pos.0, pos.1, c)],
        ) == g.width && height_after(g, seq![(pos.0, pos.1, c)]) == g.height && forall|
            a: int,
            b: int,
        | #[trigger] cells_after(g, seq![(pos.0, pos.1, c)], a, b) == g.cell(a, b),
{
    let w = seq![(pos.0, pos.1, c)];
    assert(w.last() == (pos.0, pos.1, c));
    assert(w.drop_last() =~= Seq::<(i32, i32, char)>::empty());
    assert(width_after(g, w.drop_last()) == g.width as int);
    assert(height_after(g, w.drop_last()) == g.height as int);
    assert(forall|a: int, b: int| #[trigger] cells_after(g, w.drop_last(), a, b) == g.cell(a, b));
    if !g.expand && !(pos.0 < g.width && pos.1 < g.height) {
        assert(!write_lands(g, pos.0, pos.1));
        assert(forall|a: int, b: int|
            #[trigger] cells_after(g, w, a, b) == cells_after(g, w.drop_last(), a, b));
    }
}

/// A wrapped step never escapes the bounds: every orbit position past the
/// start lies inside the grid.
pub proof fn lemma_orbit_in_bounds(g: FungeGrid, pos: FungeVector, delta: FungeVector, k: nat)
    requires
        g.wf(),
        k >= 1,
    ensures
        0 <= orbit(g, pos, delta, k).0 < g.width,
        0 <= orbit(g, pos, delta, k).1 < g.height,
{
    let p = orbit(g, pos, delta, (k - 1) as nat);
    vstd::arithmetic::div_mod::lemma_mod_bound(p.0 + delta.0, g.width as int);
    vstd::arithmetic::div_mod::lemma_mod_bound(p.1 + delta.1, g.height as int);
}

/// Whether one write of a run takes effect, judged against the grid as it
/// was before the run: negative targets never land, in-bounds targets
/// always do, and targets beyond the bounds land only with expansion.
pub open spec fn write_lands(g: FungeGrid, x: i32, y: i32) -> bool {
    x >= 0 && y >= 0 && ((x < g.width && y < g.height) || g.expand)
}

/// The cell at a coordinate after a run of writes: the last landing write
/// aimed there, or the original cell.
pub open spec fn cells_after(g: FungeGrid, w: Seq<(i32, i32, char)>, a: int, b: int) -> char
    decreases w.len(),
{
    if w.len() == 0 {
        g.cell(a, b)
    } else {
        let t = w.last();
        if write_lands(g, t.0, t.1) && t.0 == a && t.1 == b {
            t.2
        } else {
            cells_after(g, w.drop_last(), a, b)
        }
    }
}

/// The width after a run of writes: grown to cover every landing write.
pub open spec fn width_after(g: FungeGrid, w: Seq<(i32, i32, char)>) -> int
    decreases w.len(),
{
    if w.len() == 0 {
        g.width as int
    } else {
        let t = w.last();
        let d = width_after(g, w.drop_last());
        if write_lands(g, t.0, t.1) {
            spec_max(d, t.0 + 1)
        } else {
            d
        }
    }
}

/// The height after a run of writes: grown to cover every landing write.
pub open spec fn height_after(g: FungeGrid, w: Seq<(i32, i32, char)>) -> int
    decreases w.len(),
{
    if w.len() == 0 {
        g.height as int
    } else {
        let t = w.last();
        let d = height_after(g, w.drop_last());
        if write_lands(g, t.0, t.1) {
            spec_max(d, t.1 + 1)
        } else {
            d
        }
    }
}

/// The writes a text placement makes, in order. In binary mode the whole
/// text is one horizontal run from the position; otherwise each line is
/// written from the position's column and successive lines advance the
/// row. Target coordinates saturate at the bounds of the coordinate type.
pub open spec fn place_writes(text: Seq<char>, pos: FungeVector, binary: bool) -> Seq<
    (i32, i32, char),
> {
    if binary {
        Seq::new(text.len(), |n: int| (crate::vector::sat_add(pos.0, n as i32), pos.1, text[n]))
    } else {
        lines_writes(split_lines(text), pos, split_lines(text).len() as int)
    }
}

/// The writes of one line of a multi-line placement.
pub open spec fn line_writes(l: Seq<char>, pos: FungeVector, j: int) -> Seq<(i32, i32, char)> {
    Seq::new(
        l.len(),
        |i: int|
            (
                crate::vector::sat_add(pos.0, i as i32),
                crate::vector::sat_add(pos.1, j as i32),
                l[i],
            ),
    )
}

/// The writes of the first `upto` lines of a multi-line placement.
pub open spec fn lines_writes(lines: Seq<Seq<char>>, pos: FungeVector, upto: int) -> Seq<
    (i32, i32, char),
>
    decreases upto,
{
    if upto <= 0 {
        Seq::empty()
    } else {
        lines_writes(lines, pos, upto - 1) + line_writes(lines[upto - 1], pos, upto - 1)
    }
}

/// The text of a rectangular region, one grid row per line: the rows from
/// `top` to `bottom`, each clipped to the columns from `left` to `right`
/// and followed by a line break.
pub open spec fn region_text(g: FungeGrid, left: int, right: int, y: int, bottom: int) -> Seq<
    char,
>
    decreases bottom - y + 1,
{
    if y > bottom {
        Seq::empty()
    } else {
        g.chars@[y]@.subrange(left, right + 1) + seq!['\n'] + region_text(
            g,
            left,
            right,
            y + 1,
            bottom,
        )
    }
}

/// Whether a region request is readable: corners non-negative and in
/// order, and the region inside the bounds.
pub open spec fn region_ok(g: FungeGrid, start: FungeVector, end: FungeVector) -> bool {
    !start.is_spec_negative() && !end.is_spec_negative() && start.0 <= end.0 && start.1 <= end.1
        && end.0 < g.width && end.1 < g.height
}

/// The greater of two integers.
pub open spec fn spec_max(a: int, b: int) -> int {
    if a >= b {
        a
    } else {
        b
    }
}

/// Reduce a coordinate plus a delta by the always-positive remainder
/// against a dimension.
pub fn wrap_coord(p: i32, d: i32, m: usize) -> (r: i32)
    requires
        1 <= m <= 0x8000_0000,
    ensures
        r as int == (p + d) % (m as int),
        0 <= r < m,
{
    let s: i64 = p as i64 + d as i64;
    proof {
        vstd::arithmetic::div_mod::lemma_mod_bound(s as int, m as int);
    }
    match s.checked_rem_euclid(m as i64) {
        Some(v) => v as i32,
        None => {
            proof {
                assert(false);
            }
            0
        },
    }
}

/// Reduce a coordinate minus a delta by the always-positive remainder
/// against a dimension.
pub fn wrap_coord_sub(p: i32, d: i32, m: usize) -> (r: i32)
    requires
        1 <= m <= 0x8000_0000,
    ensures
        r as int == (p - d) % (m as int),
        0 <= r < m,
{
    let s: i64 = p as i64 - d as i64;
    proof {
        vstd::arithmetic::div_mod::lemma_mod_bound(s as int, m as int);
    }
    match s.checked_rem_euclid(m as i64) {
        Some(v) => v as i32,
        None => {
            proof {
                assert(false);
            }
            0
        },
    }
}

} // verus!
