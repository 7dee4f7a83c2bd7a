//! Shader value types: the closed set of scalar, vector, matrix, texture,
//! array and structure types, and the literal type names that denote them.

use std::rc::Rc;

use vstd::prelude::*;
use vstd::string::StringExecFns;

verus! {

/// An interned identifier of the surrounding system, carried as its token.
#[derive(Clone, Copy, Debug, PartialEq, Eq, Hash, Structural)]
pub struct Ident(pub u64);

#[derive(Clone, Debug, Eq, Hash, PartialEq)]
pub enum Ty {
    Void,
    Bool,
    Int,
    Float,
    Bvec2,
    Bvec3,
    Bvec4,
    Ivec2,
    Ivec3,
    Ivec4,
    Vec2,
    Vec3,
    Vec4,
    Mat2,
    Mat3,
    Mat4,
    Texture2D,
    Array { elem_ty: Rc<Ty>, len: usize },
    Struct { ident: Ident },
}

#[derive(Clone, Copy, Debug, Eq, Hash, PartialEq)]
pub enum TyLit {
    Bool,
    Int,
    Float,
    Bvec2,
    Bvec3,
    Bvec4,
    Ivec2,
    Ivec3,
    Ivec4,
    Vec2,
    Vec3,
    Vec4,
    Mat2,
    Mat3,
    Mat4,
    Texture2D,
}

/// The literal a type is denoted by, where one exists. A texture reports the
/// `Bool` literal, as the surrounding system expects.
pub open spec fn spec_maybe_ty_lit(t: Ty) -> Option<TyLit> {
    match t {
        Ty::Void => None,
        Ty::Bool => Some(TyLit::Bool),
        Ty::Int => Some(TyLit::Int),
        Ty::Float => Some(TyLit::Float),
        Ty::Bvec2 => Some(TyLit::Bvec2),
        Ty::Bvec3 => Some(TyLit::Bvec3),
        Ty::Bvec4 => Some(TyLit::Bvec4),
        Ty::Ivec2 => Some(TyLit::Ivec2),
        Ty::Ivec3 => Some(TyLit::Ivec3),
        Ty::Ivec4 => Some(TyLit::Ivec4),
        Ty::Vec2 => Some(TyLit::Vec2),
        Ty::Vec3 => Some(TyLit::Vec3),
        Ty::Vec4 => Some(TyLit::Vec4),
        Ty::Mat2 => Some(TyLit::Mat2),
        Ty::Mat3 => Some(TyLit::Mat3),
        Ty::Mat4 => Some(TyLit::Mat4),
        Ty::Texture2D => Some(TyLit::Bool),
        Ty::Array { .. } => None,
        Ty::Struct { .. } => None,
    }
}

/// A type's size is defined unless a texture or a structure occurs in it.
pub open spec fn spec_sized(t: Ty) -> bool
    decreases t,
{
    match t {
        Ty::Texture2D => false,
        Ty::Struct { .. } => false,
        Ty::Array { elem_ty, .. } => spec_sized(*elem_ty),
        _ => true,
    }
}

/// Every array level's slot count fits the machine word.
pub open spec fn spec_size_fits(t: Ty) -> bool
    decreases t,
{
    &&& spec_ty_size(t) <= usize::MAX
    &&& match t {
        Ty::Array { elem_ty, .. } => spec_size_fits(*elem_ty),
        _ => true,
    }
}

/// Number of scalar slots a value of the type occupies.
pub open spec fn spec_ty_size(t: Ty) -> nat
    decreases t,
{
    match t {
        Ty::Void => 0,
        Ty::Bool => 1,
        Ty::Int => 1,
        Ty::Float => 1,
        Ty::Bvec2 => 2,
        Ty::Ivec2 => 2,
        Ty::Vec2 => 2,
        Ty::Bvec3 => 3,
        Ty::Ivec3 => 3,
        Ty::Vec3 => 3,
        Ty::Bvec4 => 4,
        Ty::Ivec4 => 4,
        Ty::Vec4 => 4,
        Ty::Mat2 => 4,
        Ty::Mat3 => 9,
        Ty::Mat4 => 16,
        Ty::Texture2D => 0,
        Ty::Array { elem_ty, len } => spec_ty_size(*elem_ty) * (len as nat),
        Ty::Struct { .. } => 0,
    }
}

impl Ty {
    pub fn maybe_ty_lit(&self) -> (r: Option<TyLit>)
        ensures
            r == spec_maybe_ty_lit(*self),
    {
        match self {
            Ty::Void => None,
            Ty::Bool => Some(TyLit::Bool),
            Ty::Int => Some(TyLit::Int),
            Ty::Float => Some(TyLit::Float),
            Ty::Bvec2 => Some(TyLit::Bvec2),
            Ty::Bvec3 => Some(TyLit::Bvec3),
            Ty::Bvec4 => Some(TyLit::Bvec4),
            Ty::Ivec2 => Some(TyLit::Ivec2),
            Ty::Ivec3 => Some(TyLit::Ivec3),
            Ty::Ivec4 => Some(TyLit::Ivec4),
            Ty::Vec2 => Some(TyLit::Vec2),
            Ty::Vec3 => Some(TyLit::Vec3),
            Ty::Vec4 => Some(TyLit::Vec4),
            Ty::Mat2 => Some(TyLit::Mat2),
            Ty::Mat3 => Some(TyLit::Mat3),
            Ty::Mat4 => Some(TyLit::Mat4),
            Ty::Texture2D => Some(TyLit::Bool),
            Ty::Array { .. } => None,
            Ty::Struct { .. } => None,
        }
    }

    pub fn is_scalar(&self) -> (r: bool)
        ensures
            r <==> (*self is Bool || *self is Int || *self is Float),
    {
        match self {
            Ty::Bool | Ty::Int | Ty::Float => true,
            _ => false,
        }
    }

    pub fn is_vector(&self) -> (r: bool)
        ensures
            r <==> (*self is Bvec2 || *self is Bvec3 || *self is Bvec4 || *self is Ivec2 || *self
                is Ivec3 || *self is Ivec4 || *self is Vec2 || *self is Vec3 || *self is Vec4),
    {
        match self {
            Ty::Bvec2 | Ty::Bvec3 | Ty::Bvec4 | Ty::Ivec2 | Ty::Ivec3 | Ty::Ivec4 | Ty::Vec2
            | Ty::Vec3 | Ty::Vec4 => true,
            _ => false,
        }
    }

    pub fn is_matrix(&self) -> (r: bool)
        ensures
            r <==> (*self is Mat2 || *self is Mat3 || *self is Mat4),
    {
        match self {
            Ty::Mat2 | Ty::Mat3 | Ty::Mat4 => true,
            _ => false,
        }
    }

    /// Size in scalar slots; defined only for sized types that fit the
    /// machine word.
    pub fn size(&self) -> (r: usize)
        requires
            spec_sized(*self),
            spec_size_fits(*self),
        ensures
            r == spec_ty_size(*self),
        decreases *self,
    {
        match self {
            Ty::Void => 0,
            Ty::Bool | Ty::Int | Ty::Float => 1,
            Ty::Bvec2 | Ty::Ivec2 | Ty::Vec2 => 2,
            Ty::Bvec3 | Ty::Ivec3 | Ty::Vec3 => 3,
            Ty::Bvec4 | Ty::Ivec4 | Ty::Vec4 | Ty::Mat2 => 4,
            Ty::Mat3 => 9,
            Ty::Mat4 => 16,
            Ty::Texture2D => {
                proof {
                    assert(false);
                }
                0
            },
            Ty::Array { elem_ty, len } => {
                let e = elem_ty.size();
                e * *len
            },
            Ty::Struct { .. } => {
                proof {
                    assert(false);
                }
                0
            },
        }
    }
}

/// The type a literal denotes.
pub open spec fn spec_lit_ty(l: TyLit) -> Ty {
    match l {
        TyLit::Bool => Ty::Bool,
        TyLit::Int => Ty::Int,
        TyLit::Float => Ty::Float,
        TyLit::Bvec2 => Ty::Bvec2,
        TyLit::Bvec3 => Ty::Bvec3,
        TyLit::Bvec4 => Ty::Bvec4,
        TyLit::Ivec2 => Ty::Ivec2,
        TyLit::Ivec3 => Ty::Ivec3,
        TyLit::Ivec4 => Ty::Ivec4,
        TyLit::Vec2 => Ty::Vec2,
        TyLit::Vec3 => Ty::Vec3,
        TyLit::Vec4 => Ty::Vec4,
        TyLit::Mat2 => Ty::Mat2,
        TyLit::Mat3 => Ty::Mat3,
        TyLit::Mat4 => Ty::Mat4,
        TyLit::Texture2D => Ty::Texture2D,
    }
}

impl TyLit {
    pub fn to_ty(self) -> (r: Ty)
        ensures
            r == spec_lit_ty(self),
    {
        match self {
            TyLit::Bool => Ty::Bool,
            TyLit::Int => Ty::Int,
            TyLit::Float => Ty::Float,
            TyLit::Bvec2 => Ty::Bvec2,
            TyLit::Bvec3 => Ty::Bvec3,
            TyLit::Bvec4 => Ty::Bvec4,
            TyLit::Ivec2 => Ty::Ivec2,
            TyLit::Ivec3 => Ty::Ivec3,
            TyLit::Ivec4 => Ty::Ivec4,
            TyLit::Vec2 => Ty::Vec2,
            TyLit::Vec3 => Ty::Vec3,
            TyLit::Vec4 => Ty::Vec4,
            TyLit::Mat2 => Ty::Mat2,
            TyLit::Mat3 => Ty::Mat3,
            TyLit::Mat4 => Ty::Mat4,
            TyLit::Texture2D => Ty::Texture2D,
        }
    }

    /// The literal's source spelling; every literal round-trips through its
    /// type: `to_ty` then `maybe_ty_lit` names the same literal, except that
    /// a texture comes back as the `Bool` literal.
    pub fn display_string(self) -> (r: &'static str)
        ensures
            r@ == spec_ty_lit_name(self),
    {
        match self {
            TyLit::Bool => "bool",
            TyLit::Int => "int",
            TyLit::Float => "float",
            TyLit::Bvec2 => "bvec2",
            TyLit::Bvec3 => "bvec3",
            TyLit::Bvec4 => "bvec4",
            TyLit::Ivec2 => "ivec2",
            TyLit::Ivec3 => "ivec3",
            TyLit::Ivec4 => "ivec4",
            TyLit::Vec2 => "vec2",
            TyLit::Vec3 => "vec3",
            TyLit::Vec4 => "vec4",
            TyLit::Mat2 => "mat2",
            TyLit::Mat3 => "mat3",
            TyLit::Mat4 => "mat4",
            TyLit::Texture2D => "texture2D",
        }
    }
}

/// The source spelling of each literal.
pub open spec fn spec_ty_lit_name(l: TyLit) -> Seq<char> {
    match l {
        TyLit::Bool => "bool"@,
        TyLit::Int => "int"@,
        TyLit::Float => "float"@,
        TyLit::Bvec2 => "bvec2"@,
        TyLit::Bvec3 => "bvec3"@,
        TyLit::Bvec4 => "bvec4"@,
        TyLit::Ivec2 => "ivec2"@,
        TyLit::Ivec3 => "ivec3"@,
        TyLit::Ivec4 => "ivec4"@,
        TyLit::Vec2 => "vec2"@,
        TyLit::Vec3 => "vec3"@,
        TyLit::Vec4 => "vec4"@,
        TyLit::Mat2 => "mat2"@,
        TyLit::Mat3 => "mat3"@,
        TyLit::Mat4 => "mat4"@,
        TyLit::Texture2D => "texture2D"@,
    }
}

/// Round trip of a literal through its type: `maybe_ty_lit(to_ty(l))` names
/// `l` again, except that the texture literal reports as `Bool`.
pub proof fn lemma_ty_lit_round_trip(l: TyLit)
    ensures
        l is Texture2D ==> spec_maybe_ty_lit(spec_lit_ty(l)) == Some(TyLit::Bool),
        !(l is Texture2D) ==> spec_maybe_ty_lit(spec_lit_ty(l)) == Some(l),
{
}


// ---------------------------------------------------------------------------
// Rendering
// ---------------------------------------------------------------------------

/// The single decimal digit `d` as a one-character string.
pub open spec fn spec_digit(d: nat) -> Seq<char>
    recommends
        d < 10,
{
    if d == 0 {
        "0"@
    } else if d == 1 {
        "1"@
    } else if d == 2 {
        "2"@
    } else if d == 3 {
        "3"@
    } else if d == 4 {
        "4"@
    } else if d == 5 {
        "5"@
    } else if d == 6 {
        "6"@
    } else if d == 7 {
        "7"@
    } else if d == 8 {
        "8"@
    } else {
        "9"@
    }
}

/// The decimal spelling of `n`, most significant digit first.
pub open spec fn spec_decimal(n: nat) -> Seq<char>
    decreases n,
{
    if n < 10 {
        spec_digit(n)
    } else {
        spec_decimal(n / 10) + spec_digit(n % 10)
    }
}

fn digit_str(d: u64) -> (r: &'static str)
    requires
        d < 10,
    ensures
        r@ == spec_digit(d as nat),
{
    match d {
        0 => "0",
        1 => "1",
        2 => "2",
        3 => "3",
        4 => "4",
        5 => "5",
        6 => "6",
        7 => "7",
        8 => "8",
        _ => "9",
    }
}

fn u64_to_decimal(n: u64) -> (r: String)
    ensures
        r@ == spec_decimal(n as nat),
    decreases n,
{
    if n < 10 {
        String::from_str(digit_str(n))
    } else {
        let mut s = u64_to_decimal(n / 10);
        s.append(digit_str(n % 10));
        s
    }
}

/// The source rendering of a type: the spelling of the scalar, vector,
/// matrix and texture types, `elem[len]` for arrays, and the structure's
/// identifier token after a `#`.
pub open spec fn spec_ty_display(t: Ty) -> Seq<char>
    decreases t,
{
    match t {
        Ty::Void => "void"@,
        Ty::Bool => "bool"@,
        Ty::Int => "int"@,
        Ty::Float => "float"@,
        Ty::Bvec2 => "bvec2"@,
        Ty::Bvec3 => "bvec3"@,
        Ty::Bvec4 => "bvec4"@,
        Ty::Ivec2 => "ivec2"@,
        Ty::Ivec3 => "ivec3"@,
        Ty::Ivec4 => "ivec4"@,
        Ty::Vec2 => "vec2"@,
        Ty::Vec3 => "vec3"@,
        Ty::Vec4 => "vec4"@,
        Ty::Mat2 => "mat2"@,
        Ty::Mat3 => "mat3"@,
        Ty::Mat4 => "mat4"@,
        Ty::Texture2D => "texture2D"@,
        Ty::Array { elem_ty, len } => spec_ty_display(*elem_ty) + "["@ + spec_decimal(len as nat)
            + "]"@,
        Ty::Struct { ident } => "#"@ + spec_decimal(ident.0 as nat),
    }
}

impl Ty {
    /// Renders the type the way shader source spells it.
    pub fn display_string(&self) -> (r: String)
        ensures
            r@ == spec_ty_display(*self),
        decreases *self,
    {
        match self {
            Ty::Void => String::from_str("void"),
            Ty::Bool => String::from_str("bool"),
            Ty::Int => String::from_str("int"),
            Ty::Float => String::from_str("float"),
            Ty::Bvec2 => String::from_str("bvec2"),
            Ty::Bvec3 => String::from_str("bvec3"),
            Ty::Bvec4 => String::from_str("bvec4"),
            Ty::Ivec2 => String::from_str("ivec2"),
            Ty::Ivec3 => String::from_str("ivec3"),
            Ty::Ivec4 => String::from_str("ivec4"),
            Ty::Vec2 => String::from_str("vec2"),
            Ty::Vec3 => String::from_str("vec3"),
            Ty::Vec4 => String::from_str("vec4"),
            Ty::Mat2 => String::from_str("mat2"),
            Ty::Mat3 => String::from_str("mat3"),
            Ty::Mat4 => String::from_str("mat4"),
            Ty::Texture2D => String::from_str("texture2D"),
            Ty::Array { elem_ty, len } => {
                let mut s = elem_ty.display_string();
                s.append("[");
                let digits = u64_to_decimal(*len as u64);
                s.append(digits.as_str());
                s.append("]");
                s
            },
            Ty::Struct { ident } => {
                let mut s = String::from_str("#");
                let digits = u64_to_decimal(ident.0);
                s.append(digits.as_str());
                s
            },
        }
    }
}

} // verus!
