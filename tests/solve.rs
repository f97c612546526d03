use gauss::scalar::{Residue, Scalar, MODULUS};
use gauss::solve::gauss;

#[derive(Clone, Copy, Debug, PartialEq)]
struct F32(f32);

impl Scalar for F32 {
    fn diff(a: F32, b: F32) -> F32 {
        F32(a.0 - b.0)
    }
    fn prod(a: F32, b: F32) -> F32 {
        F32(a.0 * b.0)
    }
    fn quot(a: F32, b: F32) -> F32 {
        F32(a.0 / b.0)
    }
    fn copied(&self) -> F32 {
        *self
    }
    fn minus(&self, o: &F32) -> F32 {
        F32::diff(*self, *o)
    }
    fn times(&self, o: &F32) -> F32 {
        F32::prod(*self, *o)
    }
    fn over(&self, o: &F32) -> F32 {
        F32::quot(*self, *o)
    }
}

fn floats(rows: &[&[f32]]) -> Vec<Vec<F32>> {
    rows.iter().map(|r| r.iter().map(|&v| F32(v)).collect()).collect()
}

fn residues(rows: &[&[u64]]) -> Vec<Vec<Residue>> {
    rows.iter().map(|r| r.iter().map(|&v| Residue::new(v)).collect()).collect()
}

fn residue_vec(v: &[u64]) -> Vec<Residue> {
    v.iter().map(|&x| Residue::new(x)).collect()
}

#[test]
fn two_by_two_scenario_in_f32() {
    let mut a = floats(&[&[2.0, 1.0], &[1.0, 3.0]]);
    let mut b = vec![F32(5.0), F32(10.0)];
    let original = a.clone();
    let x = gauss(2, &mut a, &mut b, vec![F32(0.0); 2]);
    assert_eq!(a[1][1], F32(2.5));
    assert_eq!(b[1], F32(7.5));
    assert_eq!(x, vec![F32(1.0), F32(3.0)]);
    for r in 0..2 {
        let s = original[r][0].0 * x[0].0 + original[r][1].0 * x[1].0;
        assert_eq!(s, [5.0, 10.0][r]);
    }
}

#[test]
fn two_by_two_scenario_exact() {
    let mut a = residues(&[&[2, 1], &[1, 3]]);
    let mut b = residue_vec(&[5, 10]);
    let x = gauss(2, &mut a, &mut b, residue_vec(&[0, 0]));
    assert_eq!(x[0].value(), 1);
    assert_eq!(x[1].value(), 3);
}

#[test]
fn single_equation_divides() {
    let mut a = floats(&[&[4.0]]);
    let mut b = vec![F32(10.0)];
    let x = gauss(1, &mut a, &mut b, vec![F32(0.0)]);
    assert_eq!(x, vec![F32(2.5)]);
    assert_eq!(a, floats(&[&[4.0]]));
    assert_eq!(b, vec![F32(10.0)]);
}

#[test]
fn zero_pivot_gives_non_finite() {
    let mut a = floats(&[&[0.0, 1.0], &[1.0, 1.0]]);
    let mut b = vec![F32(1.0), F32(2.0)];
    let x = gauss(2, &mut a, &mut b, vec![F32(0.0); 2]);
    assert!(!x[0].0.is_finite());
    assert!(!x[1].0.is_finite());
}

#[test]
fn single_zero_pivot_gives_infinity() {
    let mut a = floats(&[&[0.0]]);
    let mut b = vec![F32(3.0)];
    let x = gauss(1, &mut a, &mut b, vec![F32(0.0)]);
    assert!(x[0].0.is_infinite());
}

#[test]
fn exact_elimination_is_upper_triangular() {
    let rows: [&[u64]; 4] = [&[3, 1, 4, 1], &[5, 9, 2, 6], &[5, 3, 5, 8], &[9, 7, 9, 3]];
    let mut a = residues(&rows);
    let mut b = residue_vec(&[2, 3, 8, 4]);
    gauss(4, &mut a, &mut b, residue_vec(&[0; 4]));
    for row in 0..4 {
        for col in 0..row {
            assert_eq!(a[row][col].value(), 0, "entry ({}, {})", row, col);
        }
    }
}

#[test]
fn exact_solution_satisfies_every_equation() {
    let rows: [&[u64]; 4] = [&[3, 1, 4, 1], &[5, 9, 2, 6], &[5, 3, 5, 8], &[9, 7, 9, 3]];
    let rhs = [2u64, 3, 8, 4];
    let mut a = residues(&rows);
    let mut b = residue_vec(&rhs);
    let x = gauss(4, &mut a, &mut b, residue_vec(&[0; 4]));
    let original = residues(&rows);
    for r in 0..4 {
        let mut s = Residue::new(0);
        for c in 0..4 {
            let t = original[r][c].times(&x[c]);
            s = s.minus(&Residue::new(0).minus(&t));
        }
        assert_eq!(s.value(), rhs[r]);
    }
}

#[test]
fn diagonally_dominant_f32_residual_is_small() {
    for &n in &[3usize, 10, 50] {
        let mut a = vec![vec![F32(0.0); n]; n];
        let mut b = vec![F32(0.0); n];
        for r in 0..n {
            let mut off = 0.0f32;
            for c in 0..n {
                if r != c {
                    let v = (((r * 7 + c * 13) % 17) as f32) - 8.0;
                    a[r][c] = F32(v);
                    off += v.abs();
                }
            }
            a[r][r] = F32(off + 1.0 + r as f32);
            b[r] = F32(((r * 5) % 11) as f32 + 1.0);
        }
        let (a0, b0) = (a.clone(), b.clone());
        let x = gauss(n, &mut a, &mut b, vec![F32(0.0); n]);
        let mut res = 0.0f64;
        let mut norm_b = 0.0f64;
        for r in 0..n {
            let mut s = 0.0f64;
            for c in 0..n {
                s += a0[r][c].0 as f64 * x[c].0 as f64;
            }
            res += (s - b0[r].0 as f64).powi(2);
            norm_b += (b0[r].0 as f64).powi(2);
        }
        assert!(res.sqrt() <= 1e-3 * norm_b.sqrt(), "n = {}", n);
    }
}

#[test]
fn residue_reduces_and_inverts() {
    assert_eq!(Residue::new(MODULUS + 5).value(), 5);
    assert_eq!(Residue::new(3).minus(&Residue::new(5)).value(), MODULUS - 2);
    assert_eq!(Residue::new(MODULUS - 1).times(&Residue::new(MODULUS - 1)).value(), 1);
    let half = Residue::new(1).over(&Residue::new(2));
    assert_eq!(half.times(&Residue::new(2)).value(), 1);
    assert_eq!(Residue::new(7).over(&Residue::new(0)).value(), 0);
    assert_eq!(Residue::new(9).copied(), Residue::new(9));
}
