//! The view state of the terminal renderer: cursor position, zoom level
//! and viewport origin, with the navigation arithmetic kept exact. The
//! drawing itself lives outside the library.

use vstd::prelude::*;

verus! {

/// What part of the board is shown and where the edit cursor stands.
pub struct Viewport {
    pub width: usize,
    pub height: usize,
    pub zoom: usize,
    pub viewport_x: usize,
    pub viewport_y: usize,
    pub cursor_x: usize,
    pub cursor_y: usize,
}

/// A viewport origin pulled along so that the cursor stays visible:
/// backwards when the cursor is left of the origin, forwards when the
/// cursor has left the `visible`-wide window.
pub open spec fn spec_follow(vp: int, cur: int, visible: int) -> int {
    if cur < vp {
        cur
    } else if cur >= vp + visible {
        cur - visible + 1
    } else {
        vp
    }
}

/// A zoom level clamped to the supported range.
pub open spec fn spec_clamp_zoom(z: int) -> int {
    if z < 1 {
        1
    } else if z > 10 {
        10
    } else {
        z
    }
}

impl Viewport {
    pub open spec fn wf(&self) -> bool {
        &&& 1 <= self.width <= isize::MAX
        &&& 1 <= self.height <= isize::MAX
        &&& 1 <= self.zoom <= 10
        &&& self.cursor_x < self.width
        &&& self.cursor_y < self.height
        &&& self.viewport_x <= self.width
        &&& self.viewport_y <= self.height
    }

    pub fn new(width: usize, height: usize) -> (v: Viewport)
        requires
            1 <= width <= isize::MAX,
            1 <= height <= isize::MAX,
        ensures
            v.wf(),
            v.width == width,
            v.height == height,
            v.zoom == 1,
            v.viewport_x == 0,
            v.viewport_y == 0,
            v.cursor_x == width / 2,
            v.cursor_y == height / 2,
    {
        Viewport {
            width,
            height,
            zoom: 1,
            viewport_x: 0,
            viewport_y: 0,
            cursor_x: width / 2,
            cursor_y: height / 2,
        }
    }

    /// Moves the cursor by `(dx, dy)`, each axis only when it stays on the
    /// board, then pulls the viewport along so the cursor stays visible.
    pub fn move_cursor(&mut self, dx: isize, dy: isize)
        requires
            old(self).wf(),
        ensures
            final(self).wf(),
            final(self).width == old(self).width,
            final(self).height == old(self).height,
            final(self).zoom == old(self).zoom,
            final(self).cursor_x == (if 0 <= old(self).cursor_x + dx < old(self).width {
                old(self).cursor_x + dx
            } else {
                old(self).cursor_x as int
            }),
            final(self).cursor_y == (if 0 <= old(self).cursor_y + dy < old(self).height {
                old(self).cursor_y + dy
            } else {
                old(self).cursor_y as int
            }),
            final(self).viewport_x == spec_follow(
                old(self).viewport_x as int,
                final(self).cursor_x as int,
                old(self).width as int / old(self).zoom as int,
            ),
            final(self).viewport_y == spec_follow(
                old(self).viewport_y as int,
                final(self).cursor_y as int,
                old(self).height as int / old(self).zoom as int,
            ),
    {
        if dx >= 0 {
            let step = dx as usize;
            if step <= self.width - 1 - self.cursor_x {
                self.cursor_x = self.cursor_x + step;
            }
        } else if dx > isize::MIN {
            let step = (-dx) as usize;
            if step <= self.cursor_x {
                self.cursor_x = self.cursor_x - step;
            }
        } else {
            proof {
                assert(old(self).cursor_x + dx < 0);
            }
        }
        if dy >= 0 {
            let step = dy as usize;
            if step <= self.height - 1 - self.cursor_y {
                self.cursor_y = self.cursor_y + step;
            }
        } else if dy > isize::MIN {
            let step = (-dy) as usize;
            if step <= self.cursor_y {
                self.cursor_y = self.cursor_y - step;
            }
        } else {
            proof {
                assert(old(self).cursor_y + dy < 0);
            }
        }
        self.ensure_cursor_in_viewport();
    }

    /// Pulls the viewport origin along so the cursor is inside the visible
    /// window.
    fn ensure_cursor_in_viewport(&mut self)
        requires
            old(self).wf(),
        ensures
            final(self).wf(),
            final(self).width == old(self).width,
            final(self).height == old(self).height,
            final(self).zoom == old(self).zoom,
            final(self).cursor_x == old(self).cursor_x,
            final(self).cursor_y == old(self).cursor_y,
            final(self).viewport_x == spec_follow(
                old(self).viewport_x as int,
                old(self).cursor_x as int,
                old(self).width as int / old(self).zoom as int,
            ),
            final(self).viewport_y == spec_follow(
                old(self).viewport_y as int,
                old(self).cursor_y as int,
                old(self).height as int / old(self).zoom as int,
            ),
    {
        let visible_width = self.width / self.zoom;
        let visible_height = self.height / self.zoom;
        if self.cursor_x < self.viewport_x {
            self.viewport_x = self.cursor_x;
        } else if self.cursor_x - self.viewport_x >= visible_width {
            self.viewport_x = self.cursor_x - visible_width + 1;
        }
        if self.cursor_y < self.viewport_y {
            self.viewport_y = self.cursor_y;
        } else if self.cursor_y - self.viewport_y >= visible_height {
            self.viewport_y = self.cursor_y - visible_height + 1;
        }
    }

    /// Moves the viewport origin by `(dx, dy)`, each axis only when the
    /// visible window stays on the board.
    pub fn pan_viewport(&mut self, dx: isize, dy: isize)
        requires
            old(self).wf(),
        ensures
            final(self).wf(),
            final(self).width == old(self).width,
            final(self).height == old(self).height,
            final(self).zoom == old(self).zoom,
            final(self).cursor_x == old(self).cursor_x,
            final(self).cursor_y == old(self).cursor_y,
            final(self).viewport_x == (if 0 <= old(self).viewport_x + dx && old(self).viewport_x
                + dx + old(self).width / old(self).zoom <= old(self).width {
                old(self).viewport_x + dx
            } else {
                old(self).viewport_x as int
            }),
            final(self).viewport_y == (if 0 <= old(self).viewport_y + dy && old(self).viewport_y
                + dy + old(self).height / old(self).zoom <= old(self).height {
                old(self).viewport_y + dy
            } else {
                old(self).viewport_y as int
            }),
    {
        let visible_width = self.width / self.zoom;
        let visible_height = self.height / self.zoom;
        if dx >= 0 {
            let step = dx as usize;
            if step <= self.width && self.viewport_x <= self.width - step && visible_width
                <= self.width - step - self.viewport_x {
                self.viewport_x = self.viewport_x + step;
            }
        } else if dx > isize::MIN {
            let step = (-dx) as usize;
            if step <= self.viewport_x && visible_width <= self.width - (self.viewport_x - step) {
                self.viewport_x = self.viewport_x - step;
            }
        }
        if dy >= 0 {
            let step = dy as usize;
            if step <= self.height && self.viewport_y <= self.height - step && visible_height
                <= self.height - step - self.viewport_y {
                self.viewport_y = self.viewport_y + step;
            }
        } else if dy > isize::MIN {
            let step = (-dy) as usize;
            if step <= self.viewport_y && visible_height <= self.height - (self.viewport_y
                - step) {
                self.viewport_y = self.viewport_y - step;
            }
        }
    }

    /// Changes the zoom level by `delta`, clamped to the supported range,
    /// and re-centres the viewport on the cursor when the level changed.
    pub fn zoom_by(&mut self, delta: isize)
        requires
            old(self).wf(),
        ensures
            final(self).wf(),
            final(self).width == old(self).width,
            final(self).height == old(self).height,
            final(self).cursor_x == old(self).cursor_x,
            final(self).cursor_y == old(self).cursor_y,
            final(self).zoom == spec_clamp_zoom(old(self).zoom + delta),
            final(self).zoom != old(self).zoom ==> {
                let visible_width = old(self).width as int / final(self).zoom as int;
                let visible_height = old(self).height as int / final(self).zoom as int;
                let centred_x = if old(self).cursor_x >= visible_width / 2 {
                    old(self).cursor_x - visible_width / 2
                } else {
                    0
                };
                let centred_y = if old(self).cursor_y >= visible_height / 2 {
                    old(self).cursor_y - visible_height / 2
                } else {
                    0
                };
                let max_x = if old(self).width >= visible_width {
                    old(self).width - visible_width
                } else {
                    0
                };
                let max_y = if old(self).height >= visible_height {
                    old(self).height - visible_height
                } else {
                    0
                };
                &&& final(self).viewport_x == (if centred_x <= max_x {
                    centred_x
                } else {
                    max_x
                })
                &&& final(self).viewport_y == (if centred_y <= max_y {
                    centred_y
                } else {
                    max_y
                })
            },
            final(self).zoom == old(self).zoom ==> final(self).viewport_x == old(self).viewport_x
                && final(self).viewport_y == old(self).viewport_y,
    {
        let new_zoom: usize = if delta >= 10 {
            10
        } else if delta <= -10 {
            1
        } else {
            let z = (self.zoom as i64) + (delta as i64);
            if z < 1 {
                1
            } else if z > 10 {
                10
            } else {
                z as usize
            }
        };
        if new_zoom != self.zoom {
            self.zoom = new_zoom;
            let visible_width = self.width / new_zoom;
            let visible_height = self.height / new_zoom;
            self.viewport_x = if self.cursor_x >= visible_width / 2 {
                self.cursor_x - visible_width / 2
            } else {
                0
            };
            self.viewport_y = if self.cursor_y >= visible_height / 2 {
                self.cursor_y - visible_height / 2
            } else {
                0
            };
            let max_viewport_x = if self.width >= visible_width {
                self.width - visible_width
            } else {
                0
            };
            let max_viewport_y = if self.height >= visible_height {
                self.height - visible_height
            } else {
                0
            };
            if self.viewport_x > max_viewport_x {
                self.viewport_x = max_viewport_x;
            }
            if self.viewport_y > max_viewport_y {
                self.viewport_y = max_viewport_y;
            }
        }
    }

    /// Back to full view: zoom one, viewport at the origin.
    pub fn reset_view(&mut self)
        requires
            old(self).wf(),
        ensures
            final(self).wf(),
            final(self).width == old(self).width,
            final(self).height == old(self).height,
            final(self).cursor_x == old(self).cursor_x,
            final(self).cursor_y == old(self).cursor_y,
            final(self).zoom == 1,
            final(self).viewport_x == 0,
            final(self).viewport_y == 0,
    {
        self.zoom = 1;
        self.viewport_x = 0;
        self.viewport_y = 0;
    }

    pub fn get_cursor_pos(&self) -> (c: (usize, usize))
        ensures
            c == (self.cursor_x, self.cursor_y),
    {
        (self.cursor_x, self.cursor_y)
    }
}

} // verus!
