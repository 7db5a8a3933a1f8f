use vstd::prelude::*;

pub mod generator;
pub mod lexer;
pub mod loader;
pub mod logger;
pub mod scss;

verus! {

/// The number of files that each worker takes when `file_count` files are
/// split in order among `workers` workers: the quotient rounded up, and at
/// least one.
pub fn chunk_size(file_count: usize, workers: usize) -> (r: usize)
    requires
        workers > 0,
    ensures
        r >= 1,
        file_count > 0 ==> r == (file_count + workers - 1) / workers as int,
        file_count == 0 ==> r == 1,
{
    if file_count == 0 {
        return 1;
    }
    let q = file_count / workers;
    if file_count % workers == 0 {
        assert((file_count + workers - 1) / workers as int == q) by (nonlinear_arith)
            requires
                file_count % workers == 0,
                q == file_count / workers,
                workers > 0,
        ;
        assert(q >= 1) by (nonlinear_arith)
            requires
                file_count % workers == 0,
                q == file_count / workers,
                workers > 0,
                file_count > 0,
        ;
        q
    } else {
        assert((file_count + workers - 1) / workers as int == q + 1) by (nonlinear_arith)
            requires
                file_count % workers != 0,
                q == file_count / workers,
                workers > 0,
        ;
        assert(q < file_count) by (nonlinear_arith)
            requires
                file_count % workers != 0,
                q == file_count / workers,
                workers > 0,
                file_count > 0,
        ;
        q + 1
    }
}

} // verus!
