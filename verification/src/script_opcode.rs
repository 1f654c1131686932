use vstd::prelude::*;

verus! {

// Opcode numbers of the RuneScript instruction set that the engine executes.

pub const PUSH_CONSTANT_INT: u16 = 0;
pub const PUSH_VARP: u16 = 1;
pub const POP_VARP: u16 = 2;
pub const PUSH_CONSTANT_STRING: u16 = 3;
pub const PUSH_VARN: u16 = 4;
pub const POP_VARN: u16 = 5;
pub const BRANCH: u16 = 6;
pub const BRANCH_NOT: u16 = 7;
pub const BRANCH_EQUALS: u16 = 8;
pub const BRANCH_LESS_THAN: u16 = 9;
pub const BRANCH_GREATER_THAN: u16 = 10;
pub const PUSH_VARS: u16 = 11;
pub const POP_VARS: u16 = 12;
pub const RETURN: u16 = 21;
pub const GOSUB: u16 = 22;
pub const JUMP: u16 = 23;
pub const SWITCH: u16 = 24;
pub const PUSH_VARBIT: u16 = 25;
pub const POP_VARBIT: u16 = 27;
pub const BRANCH_LESS_THAN_OR_EQUALS: u16 = 31;
pub const BRANCH_GREATER_THAN_OR_EQUALS: u16 = 32;
pub const PUSH_INT_LOCAL: u16 = 33;
pub const POP_INT_LOCAL: u16 = 34;
pub const PUSH_STRING_LOCAL: u16 = 35;
pub const POP_STRING_LOCAL: u16 = 36;
pub const JOIN_STRING: u16 = 37;
pub const POP_INT_DISCARD: u16 = 38;
pub const POP_STRING_DISCARD: u16 = 39;
pub const GOSUB_WITH_PARAMS: u16 = 40;
pub const JUMP_WITH_PARAMS: u16 = 41;
pub const PUSH_VARC_INT: u16 = 42;
pub const POP_VARC_INT: u16 = 43;
pub const DEFINE_ARRAY: u16 = 44;
pub const PUSH_ARRAY_INT: u16 = 45;
pub const POP_ARRAY_INT: u16 = 46;

pub const MES: u16 = 3100;

pub const ADD: u16 = 4600;
pub const SUB: u16 = 4601;
pub const MULTIPLY: u16 = 4602;
pub const DIVIDE: u16 = 4603;
pub const RANDOM: u16 = 4604;
pub const RANDOMINC: u16 = 4605;
pub const INTERPOLATE: u16 = 4606;
pub const ADDPERCENT: u16 = 4607;
pub const SETBIT: u16 = 4608;
pub const CLEARBIT: u16 = 4609;
pub const TESTBIT: u16 = 4610;
pub const MODULO: u16 = 4611;
pub const POW: u16 = 4612;
pub const INVPOW: u16 = 4613;
pub const AND: u16 = 4614;
pub const OR: u16 = 4615;
pub const MIN: u16 = 4616;
pub const MAX: u16 = 4617;
pub const SCALE: u16 = 4618;
pub const BITCOUNT: u16 = 4619;
pub const TOGGLEBIT: u16 = 4620;
pub const SETBIT_RANGE: u16 = 4621;
pub const CLEARBIT_RANGE: u16 = 4622;
pub const GETBIT_RANGE: u16 = 4623;
pub const SETBIT_RANGE_TOINT: u16 = 4624;
pub const SIN_DEG: u16 = 4625;
pub const COS_DEG: u16 = 4626;
pub const ATAN2_DEG: u16 = 4627;
pub const ABS: u16 = 4628;

} // verus!
