//! Vectors, matrices and colors, in the layout that the shaders take them in.
use vstd::prelude::*;

use crate::float::FloatBits;

verus! {

#[derive(Clone, Copy, PartialEq, Eq, Structural, Debug)]
pub struct Vec3 {
    pub x: FloatBits,
    pub y: FloatBits,
    pub z: FloatBits,
}

#[derive(Clone, Copy, PartialEq, Eq, Structural, Debug)]
pub struct Vec4 {
    pub x: FloatBits,
    pub y: FloatBits,
    pub z: FloatBits,
    pub w: FloatBits,
}

/// A matrix of three columns.
#[derive(Clone, Copy, PartialEq, Eq, Structural, Debug)]
pub struct Matrix3 {
    pub c0: Vec3,
    pub c1: Vec3,
    pub c2: Vec3,
}

/// A matrix of four columns.
#[derive(Clone, Copy, PartialEq, Eq, Structural, Debug)]
pub struct Matrix4 {
    pub c0: Vec4,
    pub c1: Vec4,
    pub c2: Vec4,
    pub c3: Vec4,
}

/// An affine transformation of the plane: `(x, y)` goes to
/// `(a x + c y + tx, b x + d y + ty)`. The translation is in pixels.
#[derive(Clone, Copy, PartialEq, Eq, Structural, Debug)]
pub struct Matrix {
    pub a: FloatBits,
    pub b: FloatBits,
    pub c: FloatBits,
    pub d: FloatBits,
    pub tx: FloatBits,
    pub ty: FloatBits,
}

/// What colors are multiplied by, and what is then added to them, channel by
/// channel.
#[derive(Clone, Copy, PartialEq, Eq, Structural, Debug)]
pub struct ColorTransform {
    pub r_mult: FloatBits,
    pub g_mult: FloatBits,
    pub b_mult: FloatBits,
    pub a_mult: FloatBits,
    pub r_add: FloatBits,
    pub g_add: FloatBits,
    pub b_add: FloatBits,
    pub a_add: FloatBits,
}

/// Where and in which colors something is drawn.
#[derive(Clone, Copy, PartialEq, Eq, Structural, Debug)]
pub struct Transform {
    pub matrix: Matrix,
    pub color_transform: ColorTransform,
}

/// A color with channels from 0 to 255.
#[derive(Clone, Copy, PartialEq, Eq, Structural, Debug)]
pub struct Color {
    pub r: u8,
    pub g: u8,
    pub b: u8,
    pub a: u8,
}

/// A vector of three numbers.
#[verifier::allow_in_spec]
pub fn vec3(x: FloatBits, y: FloatBits, z: FloatBits) -> Vec3
    returns
        (Vec3 { x, y, z }),
{
    Vec3 { x, y, z }
}

/// A vector of four numbers.
#[verifier::allow_in_spec]
pub fn vec4(x: FloatBits, y: FloatBits, z: FloatBits, w: FloatBits) -> Vec4
    returns
        (Vec4 { x, y, z, w }),
{
    Vec4 { x, y, z, w }
}

impl Vec4 {
    /// The four numbers in order.
    pub open spec fn numbers(self) -> Seq<FloatBits> {
        seq![self.x, self.y, self.z, self.w]
    }

    /// Each number is equal to its counterpart.
    pub open spec fn same_numbers(self, other: Vec4) -> bool {
        &&& self.x.same_number(other.x)
        &&& self.y.same_number(other.y)
        &&& self.z.same_number(other.z)
        &&& self.w.same_number(other.w)
    }

    /// The four numbers in order.
    pub fn values(&self) -> (values: Vec<FloatBits>)
        ensures
            values@ == self.numbers(),
    {
        vec![self.x, self.y, self.z, self.w]
    }

    /// Whether each number is equal to its counterpart.
    pub fn float_eq(self, other: Vec4) -> (equal: bool)
        ensures
            equal == self.same_numbers(other),
    {
        self.x.float_eq(other.x) && self.y.float_eq(other.y) && self.z.float_eq(other.z)
            && self.w.float_eq(other.w)
    }
}

impl Matrix3 {
    /// The columns one after the other.
    pub open spec fn numbers(self) -> Seq<FloatBits> {
        seq![
            self.c0.x,
            self.c0.y,
            self.c0.z,
            self.c1.x,
            self.c1.y,
            self.c1.z,
            self.c2.x,
            self.c2.y,
            self.c2.z,
        ]
    }

    /// The matrix that changes nothing.
    pub open spec fn spec_identity() -> Matrix3 {
        let zero = FloatBits::zero();
        let one = FloatBits::one();
        Matrix3 {
            c0: vec3(one, zero, zero),
            c1: vec3(zero, one, zero),
            c2: vec3(zero, zero, one),
        }
    }

    /// The matrix that changes nothing.
    pub fn identity() -> (matrix: Matrix3)
        ensures
            matrix == Matrix3::spec_identity(),
    {
        let zero = FloatBits::zero();
        let one = FloatBits::one();
        Matrix3 {
            c0: vec3(one, zero, zero),
            c1: vec3(zero, one, zero),
            c2: vec3(zero, zero, one),
        }
    }

    /// The columns one after the other.
    pub fn values(&self) -> (values: Vec<FloatBits>)
        ensures
            values@ == self.numbers(),
    {
        vec![
            self.c0.x,
            self.c0.y,
            self.c0.z,
            self.c1.x,
            self.c1.y,
            self.c1.z,
            self.c2.x,
            self.c2.y,
            self.c2.z,
        ]
    }
}

impl Matrix4 {
    /// The columns one after the other.
    pub open spec fn numbers(self) -> Seq<FloatBits> {
        self.c0.numbers() + self.c1.numbers() + self.c2.numbers() + self.c3.numbers()
    }

    /// The matrix that changes nothing.
    pub open spec fn spec_identity() -> Matrix4 {
        let zero = FloatBits::zero();
        let one = FloatBits::one();
        Matrix4 {
            c0: vec4(one, zero, zero, zero),
            c1: vec4(zero, one, zero, zero),
            c2: vec4(zero, zero, one, zero),
            c3: vec4(zero, zero, zero, one),
        }
    }

    /// The matrix that changes nothing.
    pub fn identity() -> (matrix: Matrix4)
        ensures
            matrix == Matrix4::spec_identity(),
    {
        let zero = FloatBits::zero();
        let one = FloatBits::one();
        Matrix4 {
            c0: vec4(one, zero, zero, zero),
            c1: vec4(zero, one, zero, zero),
            c2: vec4(zero, zero, one, zero),
            c3: vec4(zero, zero, zero, one),
        }
    }

    /// The columns one after the other.
    pub fn values(&self) -> (values: Vec<FloatBits>)
        ensures
            values@ == self.numbers(),
    {
        let values = vec![
            self.c0.x,
            self.c0.y,
            self.c0.z,
            self.c0.w,
            self.c1.x,
            self.c1.y,
            self.c1.z,
            self.c1.w,
            self.c2.x,
            self.c2.y,
            self.c2.z,
            self.c2.w,
            self.c3.x,
            self.c3.y,
            self.c3.z,
            self.c3.w,
        ];
        assert(values@ =~= self.numbers());
        values
    }
}

impl Matrix {
    /// The transformation as a matrix for the vertex shader.
    pub open spec fn spec_world(self) -> Matrix4 {
        let zero = FloatBits::zero();
        let one = FloatBits::one();
        Matrix4 {
            c0: vec4(self.a, self.b, zero, zero),
            c1: vec4(self.c, self.d, zero, zero),
            c2: vec4(zero, zero, one, zero),
            c3: vec4(self.tx, self.ty, zero, one),
        }
    }

    /// The transformation as a matrix for the vertex shader.
    pub fn world(&self) -> (world: Matrix4)
        ensures
            world == self.spec_world(),
    {
        let zero = FloatBits::zero();
        let one = FloatBits::one();
        Matrix4 {
            c0: vec4(self.a, self.b, zero, zero),
            c1: vec4(self.c, self.d, zero, zero),
            c2: vec4(zero, zero, one, zero),
            c3: vec4(self.tx, self.ty, zero, one),
        }
    }
}

impl ColorTransform {
    /// What the channels are multiplied by.
    pub open spec fn spec_mult(self) -> Vec4 {
        vec4(self.r_mult, self.g_mult, self.b_mult, self.a_mult)
    }

    /// What is added to the channels.
    pub open spec fn spec_add(self) -> Vec4 {
        vec4(self.r_add, self.g_add, self.b_add, self.a_add)
    }

    /// What the channels are multiplied by.
    pub fn mult_color(&self) -> (color: Vec4)
        ensures
            color == self.spec_mult(),
    {
        vec4(self.r_mult, self.g_mult, self.b_mult, self.a_mult)
    }

    /// What is added to the channels.
    pub fn add_color(&self) -> (color: Vec4)
        ensures
            color == self.spec_add(),
    {
        vec4(self.r_add, self.g_add, self.b_add, self.a_add)
    }
}

/// Matrices are laid out by columns: the number in row `row` of column `column`
/// comes after those of the columns before it and of the rows above it.
pub proof fn law_matrices_are_laid_out(
    small: Matrix3,
    large: Matrix4,
    column: int,
    row: int,
)
    ensures
        small.numbers().len() == 9,
        large.numbers().len() == 16,
        0 <= column < 3 && 0 <= row < 3 ==> {
            let columns = seq![small.c0, small.c1, small.c2];
            let vector = columns[column];
            small.numbers()[3 * column + row] == if row == 0 {
                vector.x
            } else if row == 1 {
                vector.y
            } else {
                vector.z
            }
        },
        0 <= column < 4 && 0 <= row < 4 ==> {
            let columns = seq![large.c0, large.c1, large.c2, large.c3];
            let vector = columns[column];
            large.numbers()[4 * column + row] == if row == 0 {
                vector.x
            } else if row == 1 {
                vector.y
            } else if row == 2 {
                vector.z
            } else {
                vector.w
            }
        },
{
}

/// The matrices that change nothing have 1 on the diagonal and 0 elsewhere.
pub proof fn law_identity(column: int, row: int)
    ensures
        0 <= column < 3 && 0 <= row < 3 ==> Matrix3::spec_identity().numbers()[3 * column
            + row].bits == if row == column {
            0x3f80_0000u32
        } else {
            0
        },
        0 <= column < 4 && 0 <= row < 4 ==> Matrix4::spec_identity().numbers()[4 * column
            + row].bits == if row == column {
            0x3f80_0000u32
        } else {
            0
        },
{
}

/// Vectors have the same numbers exactly where all four of them are equal: their
/// bits are, or both are zeros; and none is a not-a-number.
pub proof fn law_same_numbers(a: Vec4, b: Vec4)
    ensures
        a.same_numbers(b) <==> {
            &&& are_equal(a.x.bits, b.x.bits)
            &&& are_equal(a.y.bits, b.y.bits)
            &&& are_equal(a.z.bits, b.z.bits)
            &&& are_equal(a.w.bits, b.w.bits)
        },
{
}

/// The numbers that are encoded are equal.
pub open spec fn are_equal(a: u32, b: u32) -> bool {
    &&& a % 0x8000_0000 <= 0x7f80_0000
    &&& b % 0x8000_0000 <= 0x7f80_0000
    &&& a == b || a % 0x8000_0000 == 0 && b % 0x8000_0000 == 0
}

} // verus!
