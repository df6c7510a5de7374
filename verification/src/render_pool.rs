//! Pooled render scaffolding: a render state, a row iterator and a cell
//! iterator that are kept across frames.
//!
//! A pooled render state caches what it last walked, and after a geometry
//! change it can report the new dimensions while still serving rows from before
//! it. So the three are allocated anew whenever the terminal's dimensions
//! differ from the last walk.
use vstd::prelude::*;

verus! {

/// A pooled render state, row iterator and cell iterator, with the dimensions
/// of the last walk.
#[derive(Debug)]
pub struct RenderPool<S, R, C> {
    pub state: S,
    pub rows: R,
    pub cells: C,
    /// Columns and rows of the last walk; `None` before the first.
    pub last_dims: Option<(u16, u16)>,
}

/// The pooled objects of one walk.
#[derive(Debug)]
pub struct RenderWalk<'s, S, R, C> {
    pub state: &'s mut S,
    pub rows: &'s mut R,
    pub cells: &'s mut C,
}

impl<S, R, C> RenderPool<S, R, C> {
    /// A pool of freshly allocated objects, or the first allocation error.
    pub fn new<
        E,
        FS: FnOnce() -> Result<S, E>,
        FR: FnOnce() -> Result<R, E>,
        FC: FnOnce() -> Result<C, E>,
    >(new_state: FS, new_rows: FR, new_cells: FC) -> (r: Result<RenderPool<S, R, C>, E>)
        requires
            call_requires(new_state, ()),
            call_requires(new_rows, ()),
            call_requires(new_cells, ()),
        ensures
            match r {
                Ok(pool) => {
                    &&& call_ensures(new_state, (), Ok::<S, E>(pool.state))
                    &&& call_ensures(new_rows, (), Ok::<R, E>(pool.rows))
                    &&& call_ensures(new_cells, (), Ok::<C, E>(pool.cells))
                    &&& pool.last_dims is None
                },
                Err(e) => {
                    ||| call_ensures(new_state, (), Err::<S, E>(e))
                    ||| call_ensures(new_rows, (), Err::<R, E>(e)) && exists|s: S| #[trigger]
                        call_ensures(new_state, (), Ok::<S, E>(s))
                    ||| call_ensures(new_cells, (), Err::<C, E>(e)) && exists|s: S, t: R|
                        #[trigger] call_ensures(new_state, (), Ok::<S, E>(s))
                            && #[trigger] call_ensures(new_rows, (), Ok::<R, E>(t))
                },
            },
    {
        let state = match new_state() {
            Ok(state) => state,
            Err(e) => {
                return Err(e);
            },
        };
        let rows = match new_rows() {
            Ok(rows) => rows,
            Err(e) => {
                return Err(e);
            },
        };
        let cells = match new_cells() {
            Ok(cells) => cells,
            Err(e) => {
                return Err(e);
            },
        };
        Ok(RenderPool { state, rows, cells, last_dims: None })
    }

    /// Columns and rows of the last walk.
    pub fn last_dims(&self) -> (dims: Option<(u16, u16)>)
        ensures
            dims == self.last_dims,
    {
        self.last_dims
    }

    /// Allocate the three anew when the terminal's dimensions differ from the
    /// last walk. Where an allocation fails, the dimensions are not recorded, so
    /// the next walk tries again.
    pub fn rebuild_on_geometry_change<
        E,
        FS: FnOnce() -> Result<S, E>,
        FR: FnOnce() -> Result<R, E>,
        FC: FnOnce() -> Result<C, E>,
    >(&mut self, live: (u16, u16), new_state: FS, new_rows: FR, new_cells: FC) -> (r: Result<(), E>)
        requires
            call_requires(new_state, ()),
            call_requires(new_rows, ()),
            call_requires(new_cells, ()),
        ensures
            rebuilt(*old(self), *final(self), live, new_state, new_rows, new_cells, r),
    {
        let same = match self.last_dims {
            Some(dims) => dims.0 == live.0 && dims.1 == live.1,
            None => false,
        };
        if !same {
            match new_state() {
                Ok(state) => {
                    self.state = state;
                },
                Err(e) => {
                    return Err(e);
                },
            }
            match new_rows() {
                Ok(rows) => {
                    self.rows = rows;
                },
                Err(e) => {
                    return Err(e);
                },
            }
            match new_cells() {
                Ok(cells) => {
                    self.cells = cells;
                },
                Err(e) => {
                    return Err(e);
                },
            }
            self.last_dims = Some(live);
        }
        Ok(())
    }

    /// Start a walk of a terminal with dimensions `live` (or the error of asking
    /// for them), rebuilding the pool first where it must be. The three objects
    /// are handed out side by side.
    pub fn begin<
        'a,
        E,
        FS: FnOnce() -> Result<S, E>,
        FR: FnOnce() -> Result<R, E>,
        FC: FnOnce() -> Result<C, E>,
    >(
        &'a mut self,
        live: Result<(u16, u16), E>,
        new_state: FS,
        new_rows: FR,
        new_cells: FC,
    ) -> (r: Result<RenderWalk<'a, S, R, C>, E>)
        requires
            call_requires(new_state, ()),
            call_requires(new_rows, ()),
            call_requires(new_cells, ()),
        ensures
            match live {
                Err(e) => r matches Err(f) && f == e && *final(self) == *old(self),
                Ok(dims) => match r {
                    Ok(walk) => {
                        &&& rebuilt(
                            *old(self),
                            RenderPool {
                                state: *walk.state,
                                rows: *walk.rows,
                                cells: *walk.cells,
                                last_dims: Some(dims),
                            },
                            dims,
                            new_state,
                            new_rows,
                            new_cells,
                            Ok::<(), E>(()),
                        )
                        &&& *final(self) == (RenderPool {
                            state: *final(walk.state),
                            rows: *final(walk.rows),
                            cells: *final(walk.cells),
                            last_dims: Some(dims),
                        })
                    },
                    Err(e) => rebuilt(
                        *old(self),
                        *final(self),
                        dims,
                        new_state,
                        new_rows,
                        new_cells,
                        Err::<(), E>(e),
                    ),
                },
            },
    {
        let dims = match live {
            Ok(dims) => dims,
            Err(e) => {
                return Err(e);
            },
        };
        match self.rebuild_on_geometry_change(dims, new_state, new_rows, new_cells) {
            Ok(_) => {},
            Err(e) => {
                return Err(e);
            },
        }
        Ok(RenderWalk { state: &mut self.state, rows: &mut self.rows, cells: &mut self.cells })
    }
}

/// The outcome of rebuilding a pool for dimensions `live`: nothing changes where
/// the last walk had the same; else all three are new and the dimensions
/// recorded, or an allocation failed, those before it are new and the dimensions
/// are as they were.
pub open spec fn rebuilt<
    S,
    R,
    C,
    E,
    FS: FnOnce() -> Result<S, E>,
    FR: FnOnce() -> Result<R, E>,
    FC: FnOnce() -> Result<C, E>,
>(
    before: RenderPool<S, R, C>,
    after: RenderPool<S, R, C>,
    live: (u16, u16),
    new_state: FS,
    new_rows: FR,
    new_cells: FC,
    r: Result<(), E>,
) -> bool {
    if before.last_dims == Some(live) {
        r is Ok && after == before
    } else {
        match r {
            Ok(_) => {
                &&& call_ensures(new_state, (), Ok::<S, E>(after.state))
                &&& call_ensures(new_rows, (), Ok::<R, E>(after.rows))
                &&& call_ensures(new_cells, (), Ok::<C, E>(after.cells))
                &&& after.last_dims == Some(live)
            },
            Err(e) => {
                &&& after.last_dims == before.last_dims
                &&& {
                    ||| call_ensures(new_state, (), Err::<S, E>(e)) && after == before
                    ||| {
                        &&& call_ensures(new_state, (), Ok::<S, E>(after.state))
                        &&& call_ensures(new_rows, (), Err::<R, E>(e))
                        &&& after.rows == before.rows
                        &&& after.cells == before.cells
                    }
                    ||| {
                        &&& call_ensures(new_state, (), Ok::<S, E>(after.state))
                        &&& call_ensures(new_rows, (), Ok::<R, E>(after.rows))
                        &&& call_ensures(new_cells, (), Err::<C, E>(e))
                        &&& after.cells == before.cells
                    }
                }
            },
        }
    }
}

/// A walk never serves objects from before a geometry change: whenever it
/// starts, either the last walk had the same dimensions or all three were
/// allocated for this one.
pub proof fn law_a_geometry_change_rebuilds_the_pool<
    S,
    R,
    C,
    E,
    FS: FnOnce() -> Result<S, E>,
    FR: FnOnce() -> Result<R, E>,
    FC: FnOnce() -> Result<C, E>,
>(
    before: RenderPool<S, R, C>,
    after: RenderPool<S, R, C>,
    live: (u16, u16),
    new_state: FS,
    new_rows: FR,
    new_cells: FC,
    r: Result<(), E>,
)
    requires
        rebuilt(before, after, live, new_state, new_rows, new_cells, r),
    ensures
        r is Ok ==> after.last_dims == Some(live),
        r is Ok && before.last_dims != Some(live) ==> call_ensures(
            new_state,
            (),
            Ok::<S, E>(after.state),
        ) && call_ensures(new_rows, (), Ok::<R, E>(after.rows)) && call_ensures(
            new_cells,
            (),
            Ok::<C, E>(after.cells),
        ),
        r is Err ==> after.last_dims != Some(live),
{
}

} // verus!
