//! Primality of the field characteristic, and the quadratic character of the curve constant.
//!
//! Each prime `n` in the chain comes with roots of unity modulo `n` whose orders are primes
//! established before; their product exceeds the square root of `n`.
use crate::fp;
use crate::prime;
use vstd::arithmetic::power::*;
use vstd::prelude::*;

verus! {

/// A small power of the curve constant.
proof fn lemma_d_small_power()
    ensures
        pow(0x52036cee2b6ffe738cc740797779e89800700a4d4141d8ab75eb4dca135978a3int, 0x5f6e2nat) % 0x7fffffffffffffffffffffffffffffffffffffffffffffffffffffffffffffedint == 0x39594c88ef13f78c58fa420556dc156b33250156d89d6028b20fa90adb16775bint,
{
    let n = 0x7fffffffffffffffffffffffffffffffffffffffffffffffffffffffffffffedint;
    let b = 0x52036cee2b6ffe738cc740797779e89800700a4d4141d8ab75eb4dca135978a3int;
    lemma_pow1(b);
    let x0 = b;
    let e0 = 1nat;
    let x1 = 0x7d6f8d574d4c1f28666b5422418f201bd37e5ec732a1caf01d83f63e6ba03e78int;
    let e1 = prime::lemma_square_step(n, b, e0, x0, x1);
    let x2 = 0x57f04826abc5b63c73671433f356eeb9ceae2442337a61c67d9deb5c3344e5abint;
    let e2 = prime::lemma_square_multiply_step(n, b, e1, x1, x2);
    let x3 = 0x4bf816b98c9180d4057dc73da9c5a553bfc999fcfbc91f35aba36c4ae1358bcint;
    let e3 = prime::lemma_square_multiply_step(n, b, e2, x2, x3);
    let x4 = 0x5b7f535bbbf50435f09707f540947e6d277ab78cb223317249dc01139ea1311bint;
    let e4 = prime::lemma_square_multiply_step(n, b, e3, x3, x4);
    let x5 = 0xa2eb5737202346ae12ecd7e0ccf9ce963d14ade0bb59ca7421994cac144d4e4int;
    let e5 = prime::lemma_square_multiply_step(n, b, e4, x4, x5);
    let x6 = 0x180800ca8e9589c8e3a4910b5af2a1a6f2cf83bf6b9d9961c5a70e0293b80db2int;
    let e6 = prime::lemma_square_multiply_step(n, b, e5, x5, x6);
    let x7 = 0x29ffcb87d1fc1a2c120b5d4631321fb58ad66c52b1e9752ed538438667fc4423int;
    let e7 = prime::lemma_square_step(n, b, e6, x6, x7);
    let x8 = 0x6b25dbbe0397dd75f4e77c99b109b6f972b8dce0593fcffa721a6c7995b5da46int;
    let e8 = prime::lemma_square_multiply_step(n, b, e7, x7, x8);
    let x9 = 0x3ba4dc4e2c174ecf769a7210cd37927902ad09fe3f71972baf9b82a3a840beb9int;
    let e9 = prime::lemma_square_multiply_step(n, b, e8, x8, x9);
    let x10 = 0x21d34e6e596e1bb49bc2130930ba7d8edfd76566ef0c75b907dd09d2263723eeint;
    let e10 = prime::lemma_square_step(n, b, e9, x9, x10);
    let x11 = 0x35ac43f96853d28cd52f01def93f6945a696510b60ab9dd71ab952eb70d19394int;
    let e11 = prime::lemma_square_multiply_step(n, b, e10, x10, x11);
    let x12 = 0x61eaeecf3ad3eeb5d215f0bb2a1a9f12c702904b6e773702fab5e5dff2974388int;
    let e12 = prime::lemma_square_multiply_step(n, b, e11, x11, x12);
    let x13 = 0x7988b686078df2679ec1d7c07735052e19b64a61c0c1d1e40f5ca5fbd0b93a48int;
    let e13 = prime::lemma_square_multiply_step(n, b, e12, x12, x13);
    let x14 = 0x4bbe03a81275f57f1046322c19d2fd41a765860be5d04009011e353d66d40486int;
    let e14 = prime::lemma_square_step(n, b, e13, x13, x14);
    let x15 = 0xd59c92bfd2f57c78318801a34d7d680794b29539146da0b9c9cba7c4fe2cab7int;
    let e15 = prime::lemma_square_step(n, b, e14, x14, x15);
    let x16 = 0x7a2e5468bb23587536ec8be1659964799c12126cffd1066006afdec95c178591int;
    let e16 = prime::lemma_square_step(n, b, e15, x15, x16);
    let x17 = 0x69d0e5195e2100d2a2187c036e1377e727382f82424b1fb989a8d23e52af190dint;
    let e17 = prime::lemma_square_multiply_step(n, b, e16, x16, x17);
    let x18 = 0x39594c88ef13f78c58fa420556dc156b33250156d89d6028b20fa90adb16775bint;
    let e18 = prime::lemma_square_step(n, b, e17, x17, x18);
}

/// Raising that power by the large prime factor of `p - 1` gives `-1`.
#[verifier::rlimit(60)]
proof fn lemma_d_root_power()
    ensures
        pow(0x39594c88ef13f78c58fa420556dc156b33250156d89d6028b20fa90adb16775bint, 0xabaf8c6b094fd0f32c2ccabab864dbecd99144679c1adf804898fb2042bnat) % 0x7fffffffffffffffffffffffffffffffffffffffffffffffffffffffffffffedint == 0x7fffffffffffffffffffffffffffffffffffffffffffffffffffffffffffffecint,
{
    let n = 0x7fffffffffffffffffffffffffffffffffffffffffffffffffffffffffffffedint;
    let b = 0x39594c88ef13f78c58fa420556dc156b33250156d89d6028b20fa90adb16775bint;
    lemma_pow1(b);
    let x0 = b;
    let e0 = 1nat;
    let x1 = 0x4a0757a58983a59e9f2500136f5e9ed11cb2adffe609d5869dc1498972a2fd72int;
    let e1 = prime::lemma_square_step(n, b, e0, x0, x1);
    let x2 = 0x447fe5a256544431c16ab398d97954527cb7e5679d2dfd0d51b1c109bf7bb316int;
    let e2 = prime::lemma_square_multiply_step(n, b, e1, x1, x2);
    let x3 = 0x1f283d4bfa1f1c5b42026d31b44eb341d7d2ad11ab32a5c1c22f241b71f7e78bint;
    let e3 = prime::lemma_square_step(n, b, e2, x2, x3);
    let x4 = 0x5b1dac3c908cb54deb178c2d09597d823050d748539ae115fedb3d537c8e0b27int;
    let e4 = prime::lemma_square_multiply_step(n, b, e3, x3, x4);
    let x5 = 0x18e8f5a8619c02182a10ed6fd29a7bdff49b70d96b7704381a6018c38627951bint;
    let e5 = prime::lemma_square_step(n, b, e4, x4, x5);
    let x6 = 0x54ed6255a39f7b548648981872596001820b2ae117beacc4800696d893a65d01int;
    let e6 = prime::lemma_square_multiply_step(n, b, e5, x5, x6);
    let x7 = 0x3e7610fe6a5416064663abc88343b4f29f9bcf99ff17142a3a1c7da1f719f80int;
    let e7 = prime::lemma_square_multiply_step(n, b, e6, x6, x7);
    let x8 = 0x7ab2cbd560738e3c6b3e17102613cff974012bd26b0d236f79ceafb261957f21int;
    let e8 = prime::lemma_square_multiply_step(n, b, e7, x7, x8);
    let x9 = 0x4eccddc0b62606cf09872ba1021f49126d369d7dc3ecec6afdb7b38388231995int;
    let e9 = prime::lemma_square_step(n, b, e8, x8, x9);
    let x10 = 0xb17978f09f89230a34049a76665d85476ca28fd01412c12917686196d2672fbint;
    let e10 = prime::lemma_square_multiply_step(n, b, e9, x9, x10);
    let x11 = 0x3494e7eba245d9dae25f52d4044462344c21d544cdfa37efd560d5a42f400380int;
    let e11 = prime::lemma_square_step(n, b, e10, x10, x11);
    let x12 = 0x2f47d2d1b60765e88f50d48aac20b012cd6dd268c0c3f192e359e814e286b469int;
    let e12 = prime::lemma_square_multiply_step(n, b, e11, x11, x12);
    let x13 = 0x552a7e1606e535cf72a15a7ec1cc05ff6ea0e75490698eb8a4561c9b598cec98int;
    let e13 = prime::lemma_square_multiply_step(n, b, e12, x12, x13);
    let x14 = 0x62c671cc9db6b54f92687a6983a98e92b046e91dd7cc96df9f6b622d08eec7a7int;
    let e14 = prime::lemma_square_multiply_step(n, b, e13, x13, x14);
    let x15 = 0x59ccf4de1183178be583fa3c7b0e564ed5e4cd208add78caa5333acc8c1df8eeint;
    let e15 = prime::lemma_square_multiply_step(n, b, e14, x14, x15);
    let x16 = 0xdcf937c71308aae6ef4108a497148f332c8f90e1cf9908228a8b8d958dcb41eint;
    let e16 = prime::lemma_square_multiply_step(n, b, e15, x15, x16);
    let x17 = 0x8f529ee0304823547f92c711184894fe3697a518bf068f739f54acba4cc788bint;
    let e17 = prime::lemma_square_step(n, b, e16, x16, x17);
    let x18 = 0x20a33603d9e9ebaaa50c4bacea17db199d7e3a22f615890569d50fc4bd620417int;
    let e18 = prime::lemma_square_step(n, b, e17, x17, x18);
    let x19 = 0x69dd7d6fbdd643280c9c1648dd968e291e55599a862c859e28e990e150864028int;
    let e19 = prime::lemma_square_step(n, b, e18, x18, x19);
    let x20 = 0x6310c26fbe7a62f788aae21064e581fbba490d2b53622b3f2505858f06bbfee2int;
    let e20 = prime::lemma_square_multiply_step(n, b, e19, x19, x20);
    let x21 = 0x1661c06127da28fe98fcf0b104ff426eed19fef233e1690d234a07baa1a01b97int;
    let e21 = prime::lemma_square_multiply_step(n, b, e20, x20, x21);
    let x22 = 0x47e5e868e1dd635e598107833b78e4b71673f2d3260ee9a3b4dd7ee6d5bf9d9bint;
    let e22 = prime::lemma_square_step(n, b, e21, x21, x22);
    let x23 = 0x179d95f574ee9337d37c19546506224ca7a40bc0c8b97abaec81d97f3d4ad1b4int;
    let e23 = prime::lemma_square_step(n, b, e22, x22, x23);
    let x24 = 0x72f449d72238336008374506de3b8fb38e9e3145f30ecf5f9f85a591b928f7e5int;
    let e24 = prime::lemma_square_step(n, b, e23, x23, x24);
    let x25 = 0x7f80ff9ee4bf41d5aa39588311099c6f4c72fe0fd47b71cca7ac631d82371eaint;
    let e25 = prime::lemma_square_multiply_step(n, b, e24, x24, x25);
    let x26 = 0x1fa51211e899f4d243aaf7c05ca3e4dc03ac3693a7528e42e7cbe0f0f82bb50eint;
    let e26 = prime::lemma_square_multiply_step(n, b, e25, x25, x26);
    let x27 = 0x7b2d042724d6047c3c0b55223cb9a15cd843eb3afdc5fc275a7c28ab810f117dint;
    let e27 = prime::lemma_square_step(n, b, e26, x26, x27);
    let x28 = 0x5d5b2fd1854a1311bd5fe2a55a8b1a759b865500e8a59812b2ffb9264d9f5684int;
    let e28 = prime::lemma_square_multiply_step(n, b, e27, x27, x28);
    let x29 = 0x4cf7443e0b01e701b5780cc3424d0ad1cf5f457a90c7ba79853826d15c7e66e3int;
    let e29 = prime::lemma_square_step(n, b, e28, x28, x29);
    let x30 = 0x1c82a161ad4580b8bf06ce5be06626181f0d4b387860ced155f19d4e112c2992int;
    let e30 = prime::lemma_square_multiply_step(n, b, e29, x29, x30);
    let x31 = 0x3b1e5d89425410058f100db841f32c1e87a485cdd9237c3700d556060428e66dint;
    let e31 = prime::lemma_square_multiply_step(n, b, e30, x30, x31);
    let x32 = 0x17a00a64fe37ec85581230d1e561b87dd8a1ea7ee66c9d2c11ba1b63deb59f0cint;
    let e32 = prime::lemma_square_step(n, b, e31, x31, x32);
    let x33 = 0x1a811ab51bd54a94bacf2cf382e2f97209a24142801a0e379d1046c14b4572ceint;
    let e33 = prime::lemma_square_step(n, b, e32, x32, x33);
    let x34 = 0x768689639ba7f5d49e0fc170bb9b42165dafda009f16a846af5af7eae0c8dddfint;
    let e34 = prime::lemma_square_step(n, b, e33, x33, x34);
    let x35 = 0x69cbe5ac00765d5174d0c561c0911a8d00217694bd563f92ff28c917ec5459d3int;
    let e35 = prime::lemma_square_step(n, b, e34, x34, x35);
    let x36 = 0x5aa03f08493cad10e5dc071cd13263f488c5dd2bd8df07942d8f2577119ad332int;
    let e36 = prime::lemma_square_multiply_step(n, b, e35, x35, x36);
    let x37 = 0x2593d5617628f56e2203343b92594bc52187bc35ecca0a7cc59d9d3153cbbe0dint;
    let e37 = prime::lemma_square_step(n, b, e36, x36, x37);
    let x38 = 0x20245b56aa2733f6700b4d79227f5b4fa6ac6e04c118cf9861fd1dc653e22240int;
    let e38 = prime::lemma_square_step(n, b, e37, x37, x38);
    let x39 = 0x9a027599a9ded6ac6ff12a5b6e2237a49749f1dff0eb780aa2e0ce1c3d125bbint;
    let e39 = prime::lemma_square_multiply_step(n, b, e38, x38, x39);
    let x40 = 0x64a03c7c9c51af6ecac41e65584f63a23cb8300c84aa2fe7e1150e140a33e9fcint;
    let e40 = prime::lemma_square_step(n, b, e39, x39, x40);
    let x41 = 0x39f99f274715b59459b84dd4f330b9bdd8525f44588c599da1f5449cfc932687int;
    let e41 = prime::lemma_square_multiply_step(n, b, e40, x40, x41);
    let x42 = 0x5a1cd37e1dd1cc69ffbe31556b92e9e00e31708930b8373235ddadab8bb9262dint;
    let e42 = prime::lemma_square_step(n, b, e41, x41, x42);
    let x43 = 0x157186b6d7ead25d7763ecf67170e81b8ab59e5abb0422a347da147843e26521int;
    let e43 = prime::lemma_square_step(n, b, e42, x42, x43);
    let x44 = 0x32b2b9d333f598c70ed171b99690d697f33c87e25464aa5195b7bdccba6fc6int;
    let e44 = prime::lemma_square_multiply_step(n, b, e43, x43, x44);
    let x45 = 0x38e411a665f6b3499b553d96a0d7eecc16bd19681bd362c59b8cb388e1f83e0fint;
    let e45 = prime::lemma_square_multiply_step(n, b, e44, x44, x45);
    let x46 = 0x6550262b67d74a4bedd72652e68d68537bcb2aa8b8443bc141ccd4bd4d9e729dint;
    let e46 = prime::lemma_square_multiply_step(n, b, e45, x45, x46);
    let x47 = 0x3af951e89729f3a90962bfceacaa7553d6974082d5863a094dbc80ba8fc735c5int;
    let e47 = prime::lemma_square_multiply_step(n, b, e46, x46, x47);
    let x48 = 0x7ccc6f1488d66db4f6a34fe43899dd186ab4eee640a9f337a7d593f9c0995a1bint;
    let e48 = prime::lemma_square_multiply_step(n, b, e47, x47, x48);
    let x49 = 0x1b347366c65cb1fb773c083cde8c2ab081454305e8829fe54509b30ebf5ad79eint;
    let e49 = prime::lemma_square_multiply_step(n, b, e48, x48, x49);
    let x50 = 0x4a7bdb541f70f1eccd1b6d5c70ea769079453e5aa08238cf0f03cea97b390f06int;
    let e50 = prime::lemma_square_step(n, b, e49, x49, x50);
    let x51 = 0x2dd8421f706a5aeaeabc8e1713e85810cd98cb4a7bbf5ee9d468d2c6fa6e4ffint;
    let e51 = prime::lemma_square_multiply_step(n, b, e50, x50, x51);
    let x52 = 0x75036de5c124c8e0326fb7470e9fec1d62f5539a3182df3040b979d7364d4e51int;
    let e52 = prime::lemma_square_step(n, b, e51, x51, x52);
    let x53 = 0x346cb3383ff7bc634aa1a4fc5b124001fcbdad85fd9f7fffa38d8966f095f1fdint;
    let e53 = prime::lemma_square_step(n, b, e52, x52, x53);
    let x54 = 0x1acc9277a1e8271a02f67ebf11977ec114d0c0db7127bda514c1bb970c35e618int;
    let e54 = prime::lemma_square_step(n, b, e53, x53, x54);
    let x55 = 0x22d3e9289bcaa5f5e740980692c64c476fe03b67c465b03a0a054cc60c33bea1int;
    let e55 = prime::lemma_square_step(n, b, e54, x54, x55);
    let x56 = 0x4009fb7b3a7f7fe5c31a0855ec80c169705dfe3506fbf44692d8d101eaa5cfbbint;
    let e56 = prime::lemma_square_multiply_step(n, b, e55, x55, x56);
    let x57 = 0x7df48d74836ad2a37cd9c23a996b82a329a178339dd7d3d6d2ec1a6d3e44bc0bint;
    let e57 = prime::lemma_square_multiply_step(n, b, e56, x56, x57);
    let x58 = 0xa254f45776e6106b28ccb399a6623400d5010cf6b49b1e3ee4d812327af7361int;
    let e58 = prime::lemma_square_multiply_step(n, b, e57, x57, x58);
    let x59 = 0xa45049541d33e0a750cda67abc142a44b190a2a093c449e139166238ec10b38int;
    let e59 = prime::lemma_square_multiply_step(n, b, e58, x58, x59);
    let x60 = 0x45fd04cd36b1dcbe3782b928f43d1afa1999528f579183dc824fd42e08aea897int;
    let e60 = prime::lemma_square_step(n, b, e59, x59, x60);
    let x61 = 0x6315e4bf2ec1ed91b012f2ef3e5f080b3e31c52f16c1929ec46f2f96a2c876a1int;
    let e61 = prime::lemma_square_step(n, b, e60, x60, x61);
    let x62 = 0x2065b16d0533c880301ec33d9056d3734511f798b5ea12974ea7d564ea7b11eaint;
    let e62 = prime::lemma_square_multiply_step(n, b, e61, x61, x62);
    let x63 = 0x6cf2f12a0aeb87066845ca0a09b4f5aa4d8ddd20914ef80562dc6be60296c04eint;
    let e63 = prime::lemma_square_multiply_step(n, b, e62, x62, x63);
    let x64 = 0xf8a8290f8e2ce7550ada058ba921e784dfcb5abcd8a1854e53799e67794cfc4int;
    let e64 = prime::lemma_square_step(n, b, e63, x63, x64);
    let x65 = 0x35f2db30d152b1643d0d2605c55197885e316520c0d43596f18d91c13a45357eint;
    let e65 = prime::lemma_square_step(n, b, e64, x64, x65);
    let x66 = 0x239582187057e941eb8879045160a673a93f4312758085618ad781f119907367int;
    let e66 = prime::lemma_square_multiply_step(n, b, e65, x65, x66);
    let x67 = 0x4ceb1efc27ffe3e74caeadd297379f2bd968b30f08ca3f40770c789dfb2a9d39int;
    let e67 = prime::lemma_square_step(n, b, e66, x66, x67);
    let x68 = 0xdddd1bb036b320797dd9a0002df5360e536513daac7d4a409564b0f2c486c01int;
    let e68 = prime::lemma_square_multiply_step(n, b, e67, x67, x68);
    let x69 = 0x1137275a3016e148f2f7795d634403f228bcb0220bff8dfe85a01c2a7a696217int;
    let e69 = prime::lemma_square_multiply_step(n, b, e68, x68, x69);
    let x70 = 0x4f0ad618132cd8f9fbe22fe286943a4024906017792195e9116e4c482102c9aeint;
    let e70 = prime::lemma_square_step(n, b, e69, x69, x70);
    let x71 = 0x689cf53a3c6afb4e7f417bcc84cc64a20b711e71a1a2d8d745e494de159e4d5dint;
    let e71 = prime::lemma_square_step(n, b, e70, x70, x71);
    let x72 = 0xeb83f614a3e5db18f61f56127149759a5db94e822706cc54159be86ffb38a46int;
    let e72 = prime::lemma_square_step(n, b, e71, x71, x72);
    let x73 = 0x75177b55d2040a050b80b8a5a77a757a0f54b129e659ec654d733654641246bcint;
    let e73 = prime::lemma_square_step(n, b, e72, x72, x73);
    let x74 = 0x16ee981111fd00d05fca9db1c92d2b24beeaef2e9fb1c970aa2e90943faaffd6int;
    let e74 = prime::lemma_square_multiply_step(n, b, e73, x73, x74);
    let x75 = 0x30a0a025442e2616ea2b887c77be897003b9079c082520ce7c85e04479a0921eint;
    let e75 = prime::lemma_square_step(n, b, e74, x74, x75);
    let x76 = 0x5e39f10e3add36ba73803ce38d7b1da3c7c12ae5a6fc5d1b5f04c9ef22e1ebe3int;
    let e76 = prime::lemma_square_multiply_step(n, b, e75, x75, x76);
    let x77 = 0x31d512457b81ff2147f59ab186c5513dc69997d3b066723a5a8a227f32452d05int;
    let e77 = prime::lemma_square_multiply_step(n, b, e76, x76, x77);
    let x78 = 0xa35554f53f6075f0842dc628179077355ddb1bf1c7ac9a664d2c24071911196int;
    let e78 = prime::lemma_square_step(n, b, e77, x77, x78);
    let x79 = 0x3115ca62d4bdcd8919d1d58a0ffcc4e99c5ddf7de5c4a561d9ed80c41a4d3d76int;
    let e79 = prime::lemma_square_step(n, b, e78, x78, x79);
    let x80 = 0x4f44b64fa55c900fdaf2601b9db0a921224cde500a832eeea3c50e63c5fb64a7int;
    let e80 = prime::lemma_square_multiply_step(n, b, e79, x79, x80);
    let x81 = 0xf6806199640837135abeb4d1e6d4d49f37c3825e99017b88ecce17b87697f8bint;
    let e81 = prime::lemma_square_multiply_step(n, b, e80, x80, x81);
    let x82 = 0xbfd03eca99ebe460e1e88a618e0fe20f1ace769fdc7840db9e76971c3793255int;
    let e82 = prime::lemma_square_step(n, b, e81, x81, x82);
    let x83 = 0x77d36e09461e30b49b71c6365b0060f3ffa4c93424a10ed923e606ed6e604ff9int;
    let e83 = prime::lemma_square_step(n, b, e82, x82, x83);
    let x84 = 0x504112f9bbb000112613c446b1a31c98c3fcb12864db307a3f4307e8f46c0deint;
    let e84 = prime::lemma_square_multiply_step(n, b, e83, x83, x84);
    let x85 = 0x4f650c1e4f302ca073d6b3fe801a3c42455b43e1b691a00e20a3db4c703a9f62int;
    let e85 = prime::lemma_square_step(n, b, e84, x84, x85);
    let x86 = 0x4d507c26805f6beee30bbd2854200305058d99a51c1c019ce56317a309880e3bint;
    let e86 = prime::lemma_square_multiply_step(n, b, e85, x85, x86);
    let x87 = 0x3d48130dfe5f47c13a95eb3b71d6ca652a555de36816928670139be206b29581int;
    let e87 = prime::lemma_square_step(n, b, e86, x86, x87);
    let x88 = 0x4de5035131369e005dbbcc36255f4994c59273077ed4805dc8da5608d14c11afint;
    let e88 = prime::lemma_square_multiply_step(n, b, e87, x87, x88);
    let x89 = 0x4b2658abd84556930191d7b61305b5c0809cd8b8731c7e11f7437e5afe1a40d6int;
    let e89 = prime::lemma_square_step(n, b, e88, x88, x89);
    let x90 = 0x3f5c8fd8dc5664696af33fcdf70940ed4205e9ff5a7d6df4e494f1afae42df43int;
    let e90 = prime::lemma_square_multiply_step(n, b, e89, x89, x90);
    let x91 = 0x2af34a8afb7136e88930aa1d9677c02abad54495634f6d6d6fa7c22951ba105eint;
    let e91 = prime::lemma_square_multiply_step(n, b, e90, x90, x91);
    let x92 = 0xd969b110c745132aa2a31dedf71115fc49d20387e479e4acfe7839a0eb5169aint;
    let e92 = prime::lemma_square_multiply_step(n, b, e91, x91, x92);
    let x93 = 0x61429b11aa480ed73ed4b1a623a050fd1d596fadf7bc5fdb03fd70477f6a09a5int;
    let e93 = prime::lemma_square_step(n, b, e92, x92, x93);
    let x94 = 0x1ae7c1794c59436b2393d0ad1223cd0b9dada1453e0389745ff7ee2226f1ea09int;
    let e94 = prime::lemma_square_multiply_step(n, b, e93, x93, x94);
    let x95 = 0x200c00e3f3f996509292b25d6394ec8cf27b5b71da4ec892af5a4c3e98cef6a9int;
    let e95 = prime::lemma_square_step(n, b, e94, x94, x95);
    let x96 = 0x3885e0073be64c0766e82edcdde25afa452d897078a9bae84a9c811bd26a6d7cint;
    let e96 = prime::lemma_square_multiply_step(n, b, e95, x95, x96);
    let x97 = 0x4341a57c8cba66f3a166199119a459e46871f54c0c42b797d65db8cd553720e5int;
    let e97 = prime::lemma_square_step(n, b, e96, x96, x97);
    let x98 = 0x582432f4c07ccd3ab4cdecbda2a58008df263574727e43195c676a85f2886e74int;
    let e98 = prime::lemma_square_multiply_step(n, b, e97, x97, x98);
    let x99 = 0xea69574280323024f4740b415eddbdeac6730c2e49289c137d6b13132f38cbcint;
    let e99 = prime::lemma_square_multiply_step(n, b, e98, x98, x99);
    let x100 = 0x34be5b4d7553d8b2342309d7dfb521a12986fbc74e564cf9128a8e2a95848f3bint;
    let e100 = prime::lemma_square_multiply_step(n, b, e99, x99, x100);
    let x101 = 0x48b34e440f7470f58d237b32debdc02c684c8badf21d907266bf6a5734993389int;
    let e101 = prime::lemma_square_step(n, b, e100, x100, x101);
    let x102 = 0x372ee4df9c701c748bfd28a9acefd7b64722f583473e3110f5d24e7c21a5ec6int;
    let e102 = prime::lemma_square_step(n, b, e101, x101, x102);
    let x103 = 0x788aa4a955067bb7544eff84bf4b05f2a338f318a23e5f1759b44b48c2524a50int;
    let e103 = prime::lemma_square_step(n, b, e102, x102, x103);
    let x104 = 0x2622108d54f9ecb555a0b3eaf0d9e1169054e0a13a3ceb35e4f5536a53b62268int;
    let e104 = prime::lemma_square_step(n, b, e103, x103, x104);
    let x105 = 0x35f11da98e5ab31cda6b92d7f4e9067815c2a90493387fc02550aa4f8828e9c2int;
    let e105 = prime::lemma_square_multiply_step(n, b, e104, x104, x105);
    let x106 = 0x185ad6aa0d3ed591b228f2b7d933dd6c050f8257b1f618a55ed0208accac9ea7int;
    let e106 = prime::lemma_square_multiply_step(n, b, e105, x105, x106);
    let x107 = 0x44c07cc83bff1f8d0bd59991f68ac57f2ee4e43ea97b32a161fa9888fa4f3099int;
    let e107 = prime::lemma_square_step(n, b, e106, x106, x107);
    let x108 = 0x188221769bbca0fadf8b350bbd410610f758bd2f354b2a72ff4f043af86a5b49int;
    let e108 = prime::lemma_square_step(n, b, e107, x107, x108);
    let x109 = 0x7ca30fe83f3488cd837e9725452b0c6e1648e47211fe2a1772530b1ebc387c4cint;
    let e109 = prime::lemma_square_multiply_step(n, b, e108, x108, x109);
    let x110 = 0x5ac71a173f47137ef17c1d8aa783645a44461bacf510344cd9c45542b7bbbd00int;
    let e110 = prime::lemma_square_step(n, b, e109, x109, x110);
    let x111 = 0x78591e39c25a196824e4a3414e05ccf754638b4f4bb97a4134be190fa6241c9aint;
    let e111 = prime::lemma_square_step(n, b, e110, x110, x111);
    let x112 = 0x4af42a1f963837974d8b02fae7e606e1db57cb999013d0ad9f8f5a6835fd2ad0int;
    let e112 = prime::lemma_square_multiply_step(n, b, e111, x111, x112);
    let x113 = 0x3d00b3f5934c5481fb059de04653a235c8161b9dd1aee1979c8105727545b776int;
    let e113 = prime::lemma_square_multiply_step(n, b, e112, x112, x113);
    let x114 = 0x25b064d7dfdc20dd3fd152b163922540883b042388d060889c9c9e6d3195e0a5int;
    let e114 = prime::lemma_square_step(n, b, e113, x113, x114);
    let x115 = 0x2cdab535434721af6a54af3da68bd3d0aa29b24a85e8b5658d8e8107a7556404int;
    let e115 = prime::lemma_square_multiply_step(n, b, e114, x114, x115);
    let x116 = 0x784b2955def3e10a48cdf9d405a903a7883ca73a27b1343abe20f3f4a073dabaint;
    let e116 = prime::lemma_square_multiply_step(n, b, e115, x115, x116);
    let x117 = 0x700f871da22f9d9309d4e6908e930801d70a3c2b40fee2fd2f9e25d29d7d79eaint;
    let e117 = prime::lemma_square_step(n, b, e116, x116, x117);
    let x118 = 0x5798e33a072c57ab6ed81c25f86caef1d42224810d65b56caa5f2e7801b7a9c5int;
    let e118 = prime::lemma_square_multiply_step(n, b, e117, x117, x118);
    let x119 = 0x3718cbbadb7ded647f2b831365f0b432f907b342c4d1eec03e12f25a9ecb4c4fint;
    let e119 = prime::lemma_square_multiply_step(n, b, e118, x118, x119);
    let x120 = 0x7ebe746725221029406ed3cd1c4665128a89e7a33d0f065061109500754cdcaint;
    let e120 = prime::lemma_square_multiply_step(n, b, e119, x119, x120);
    let x121 = 0x22fa5091c2a9aee302e9551fbb1487b6e270ad009ca0487d861fbe602e60fbd6int;
    let e121 = prime::lemma_square_multiply_step(n, b, e120, x120, x121);
    let x122 = 0x22104e115f2ad4dc248f22be0a7b38f9279c7833defb7e44e490cfb18cdba203int;
    let e122 = prime::lemma_square_multiply_step(n, b, e121, x121, x122);
    let x123 = 0x36a9a60db4d09d827b45ac8dbd811ece442dd46417fcee583ef96b35b4df5f0fint;
    let e123 = prime::lemma_square_step(n, b, e122, x122, x123);
    let x124 = 0x7c0485a6759645ff391bede61da94a7b3ee42f4ba80de163292e01bf1438e213int;
    let e124 = prime::lemma_square_multiply_step(n, b, e123, x123, x124);
    let x125 = 0x442ef88144fe18ab4237112ff072030e41033dc04298ac14a801de661ea3cc63int;
    let e125 = prime::lemma_square_multiply_step(n, b, e124, x124, x125);
    let x126 = 0x68afefbc0bb4159c0f29d7c2bc71f0b117f6475c1b4eb5c030a1757ef6d3095bint;
    let e126 = prime::lemma_square_step(n, b, e125, x125, x126);
    let x127 = 0x144cf427e0e7235b65cc6347a1953c19d4fe80af55251785d44f19358bf57559int;
    let e127 = prime::lemma_square_step(n, b, e126, x126, x127);
    let x128 = 0x461f53392a3924081c40983ced24107025ecf1aefaf9bd66681eb1787f50fa17int;
    let e128 = prime::lemma_square_multiply_step(n, b, e127, x127, x128);
    let x129 = 0x2834f826ab038e96abdeb0d59c349535b96a806fbda085c81d36dd8d48c33c75int;
    let e129 = prime::lemma_square_multiply_step(n, b, e128, x128, x129);
    let x130 = 0x3ec2f1261546b87fe7573f5620acf5f4cc24e0f3508298098207e9bc93328ecfint;
    let e130 = prime::lemma_square_step(n, b, e129, x129, x130);
    let x131 = 0x1421eff617b40c9534351ee0fd4232287b2e079be148695822b30d0a61da18ccint;
    let e131 = prime::lemma_square_multiply_step(n, b, e130, x130, x131);
    let x132 = 0x5a52c1b47e86bd0e512ef21148ee865f9e49b7ad0c634a28326a4976bff6b789int;
    let e132 = prime::lemma_square_multiply_step(n, b, e131, x131, x132);
    let x133 = 0x3129a938d4e9b1abc7eb464fc03a65b4c52ac0984013519e1901e08e5cf20dbfint;
    let e133 = prime::lemma_square_step(n, b, e132, x132, x133);
    let x134 = 0x36d9a826f3b556b364651cf35f46d937d5667247f971f236bace5d863a95b044int;
    let e134 = prime::lemma_square_step(n, b, e133, x133, x134);
    let x135 = 0x6c30e7fce67818b087f833215bd416d7c642df9db392a879dd8317683f79f79bint;
    let e135 = prime::lemma_square_multiply_step(n, b, e134, x134, x135);
    let x136 = 0x7b590e18f7e19b008766457719d9040e00499fd8894b50df1214227d8066b1a6int;
    let e136 = prime::lemma_square_multiply_step(n, b, e135, x135, x136);
    let x137 = 0x6c16b01f642e814ad3a4fc65e08b9a23edc6f23268c26dc2c807cac3c3d5f5ddint;
    let e137 = prime::lemma_square_step(n, b, e136, x136, x137);
    let x138 = 0xdcf4633d146a4584f4453447a60230404ec33174350ea817fe42e1e5b90ceabint;
    let e138 = prime::lemma_square_step(n, b, e137, x137, x138);
    let x139 = 0x7f5acfbde991fc2a7c9d58a04aa4cf6435b7feda7a7b46edf3133e16c0b74778int;
    let e139 = prime::lemma_square_multiply_step(n, b, e138, x138, x139);
    let x140 = 0x5758b834f5f08445b8aa710df266547a672aeaed69b127bf9ca1907f888d9b5bint;
    let e140 = prime::lemma_square_step(n, b, e139, x139, x140);
    let x141 = 0x4ae659bcc1ada973f00e9aa61e3c8bd0304669c9bc7494d28a499cf2f9d897d1int;
    let e141 = prime::lemma_square_step(n, b, e140, x140, x141);
    let x142 = 0x62223d4bd475c91911c71313dfa29c24ee32779997821308f7528c203b8d839aint;
    let e142 = prime::lemma_square_step(n, b, e141, x141, x142);
    let x143 = 0x711685712a680cd0786532f0f60d864384ecf5c8d2ff1dd7ed448267ca0ef2d6int;
    let e143 = prime::lemma_square_multiply_step(n, b, e142, x142, x143);
    let x144 = 0x11eadc220d1bf317275ac0cf6185fe1ba488d17f87641b0de0e7098500828e6eint;
    let e144 = prime::lemma_square_step(n, b, e143, x143, x144);
    let x145 = 0x1aa9fa83a506485352ad4690d7ad37f9e59e0b51692a8107bfeef1b0873cd7fbint;
    let e145 = prime::lemma_square_multiply_step(n, b, e144, x144, x145);
    let x146 = 0x6549621f1b3d1e73ada40e1f4be621864ae7dd140a5736324c6699d5f299ccb4int;
    let e146 = prime::lemma_square_step(n, b, e145, x145, x146);
    let x147 = 0x19499e72c31bbe8a3689001bd7ed543bf187b91f813bb3aaf4d68d3020e6fca6int;
    let e147 = prime::lemma_square_step(n, b, e146, x146, x147);
    let x148 = 0x288ce186d3030ef522bc58355c05e1d54a7ec5827a47b739a80ff33bf643f67int;
    let e148 = prime::lemma_square_step(n, b, e147, x147, x148);
    let x149 = 0x5584e11e20298b73c7a0cf6e9cbbbc80acca0601a0db174bb64063a5b4bca06bint;
    let e149 = prime::lemma_square_multiply_step(n, b, e148, x148, x149);
    let x150 = 0x444a75764a1a359989c89a5689ac3f84e5810ceb1cd425eb040b61085ae68e1aint;
    let e150 = prime::lemma_square_step(n, b, e149, x149, x150);
    let x151 = 0x316e05acbbd866e4726e886408879458bb347f5b7ac558d3137cc3b659e7851fint;
    let e151 = prime::lemma_square_step(n, b, e150, x150, x151);
    let x152 = 0x3c95e1261d437c0747d7c8d95312ca52a716ada3c00d498a855e082c4858929dint;
    let e152 = prime::lemma_square_step(n, b, e151, x151, x152);
    let x153 = 0x2cfa5fa09ab8fca773806b3eee40840ea8119c1036e0a53f14b3786064dce4a6int;
    let e153 = prime::lemma_square_multiply_step(n, b, e152, x152, x153);
    let x154 = 0x50213fa1d872f9ff508c2428f5846cf94d3dafbf642e51b46eed43daeb172b5eint;
    let e154 = prime::lemma_square_multiply_step(n, b, e153, x153, x154);
    let x155 = 0x190607f29eaf9cf6af682e570cb9a2b8ed6397be9f67c1cb0835951f31232c6fint;
    let e155 = prime::lemma_square_step(n, b, e154, x154, x155);
    let x156 = 0x6d41bcfbda7fe179c99f6e0f1b82b681d3f31f83db6f0d50d8675ab37dd7e199int;
    let e156 = prime::lemma_square_step(n, b, e155, x155, x156);
    let x157 = 0x6e89fb4543eee9ee7c379f01ebbe34110fd56bc17243a4b507af6eafa0df3c0int;
    let e157 = prime::lemma_square_multiply_step(n, b, e156, x156, x157);
    let x158 = 0x1f1463116e83123304a0fb333c1a202936c4cfabb9711676002212141fc67e6fint;
    let e158 = prime::lemma_square_multiply_step(n, b, e157, x157, x158);
    let x159 = 0x6936c28fae938e5ed95ef589086bc0ff433072ab8e1469355cbb0d7ff97d9401int;
    let e159 = prime::lemma_square_multiply_step(n, b, e158, x158, x159);
    let x160 = 0x3b1b3d3d0c9b3c03b8be999b53eac6d681e2c1891a81fe5664cfde09c66137d0int;
    let e160 = prime::lemma_square_multiply_step(n, b, e159, x159, x160);
    let x161 = 0x3990cf9caf1b28fff78f6e0c282308e0a9170cc7ddaf06929586ed885c423950int;
    let e161 = prime::lemma_square_step(n, b, e160, x160, x161);
    let x162 = 0x48534c17e60dd1cbccfd73eeab7be78387312eeed8bc6aef4263357e3020061aint;
    let e162 = prime::lemma_square_step(n, b, e161, x161, x162);
    let x163 = 0x31a6e03c64f4401e3f3ac5af87a6b3eb0be1e57fa20249432eb7eb9d13a72e80int;
    let e163 = prime::lemma_square_multiply_step(n, b, e162, x162, x163);
    let x164 = 0x7b8fd5dc139f85724949ab4b5d57b64d7ae85f846edac94fdc180b4a272d448dint;
    let e164 = prime::lemma_square_multiply_step(n, b, e163, x163, x164);
    let x165 = 0x45c7acc51dc8be946a50bbb33e870ce9f57148c97bf5e57c3d88964536430a45int;
    let e165 = prime::lemma_square_multiply_step(n, b, e164, x164, x165);
    let x166 = 0xb1992ecb542f9890a0dd79fbf874ebe1148d116e296bdc50630a0113b60478cint;
    let e166 = prime::lemma_square_step(n, b, e165, x165, x166);
    let x167 = 0x6712d0a4f4b4250f99f50d05313778a77a12382eee8aa788476246b5d98bba1int;
    let e167 = prime::lemma_square_step(n, b, e166, x166, x167);
    let x168 = 0xc7dc3cafdc9d5e67db255fceaa78c808da510768d17f5d30a687599a5364c38int;
    let e168 = prime::lemma_square_step(n, b, e167, x167, x168);
    let x169 = 0x6efa6736d2ed2119a38467f2b3904e693016b8515a584efda3cbc98178d3ecc0int;
    let e169 = prime::lemma_square_step(n, b, e168, x168, x169);
    let x170 = 0x5f5468f712a6453ff26ca7cc4f1901a57723e6c75fac3dd66cdaa8bdeb1d9fd9int;
    let e170 = prime::lemma_square_step(n, b, e169, x169, x170);
    let x171 = 0x765349aec9512446f42e3de636f0d923bf3c7d2e6b8fed91ef2f2b71da621fcdint;
    let e171 = prime::lemma_square_multiply_step(n, b, e170, x170, x171);
    let x172 = 0x5efd21a57479df3080260929c9414c9023676f197b8543e0af916a441b0c9366int;
    let e172 = prime::lemma_square_multiply_step(n, b, e171, x171, x172);
    let x173 = 0x699381f5eb70df017ae47293b5ab04d35284a6e34d299124fabde80bf80b7b8cint;
    let e173 = prime::lemma_square_step(n, b, e172, x172, x173);
    let x174 = 0xaff0a585f57ea55e8155da39fd5f37c0b4a2998b51e41e4e40c3e96ef633f7int;
    let e174 = prime::lemma_square_multiply_step(n, b, e173, x173, x174);
    let x175 = 0x64dcc78cfb71e9ba494b63205e5778c0a691499d223a45ae225c66e0ba902fcaint;
    let e175 = prime::lemma_square_step(n, b, e174, x174, x175);
    let x176 = 0x1f37497ca176ace31e3143f98c5e1a524279e549ac2c5996f2f3d83ad3a2ada0int;
    let e176 = prime::lemma_square_multiply_step(n, b, e175, x175, x176);
    let x177 = 0x696014d8cfef7640173849a37589fc228757238261a3ab4d3a203cfbf7bd2bcfint;
    let e177 = prime::lemma_square_multiply_step(n, b, e176, x176, x177);
    let x178 = 0x50c49830c67ecd8cdd50d9af9e3277ab09e757f2661987b10f5057ec6e8a8dcdint;
    let e178 = prime::lemma_square_step(n, b, e177, x177, x178);
    let x179 = 0x1f3edd8301e98c27c993945cff46d33254a40984b380bec5feaecac0ed643938int;
    let e179 = prime::lemma_square_multiply_step(n, b, e178, x178, x179);
    let x180 = 0x6703404d79897506441c1d17f3d616f45b93dc8d7c9d32dc220a751c776ffc23int;
    let e180 = prime::lemma_square_multiply_step(n, b, e179, x179, x180);
    let x181 = 0x420a01e16122589a8aea73c03fd8daa8befc4f7587b4de4460394a33bbe34ad1int;
    let e181 = prime::lemma_square_multiply_step(n, b, e180, x180, x181);
    let x182 = 0x11e228572be72df0db12ab5eba5133f766af77a84813ceb0cd4b89bfa70656d5int;
    let e182 = prime::lemma_square_multiply_step(n, b, e181, x181, x182);
    let x183 = 0x2ace2a6b3b5eb6d06ce06d04ec124563a53f0a4b33259cfe595c274e359b7a66int;
    let e183 = prime::lemma_square_multiply_step(n, b, e182, x182, x183);
    let x184 = 0x30a165ee62c08b368b2947db86f3cad44347a17f1beb6d22498dd091be3ad85eint;
    let e184 = prime::lemma_square_multiply_step(n, b, e183, x183, x184);
    let x185 = 0x21e993b9a33147e494593b61af6a0f14ef24f4db2834db505bc8b9bb5493acd2int;
    let e185 = prime::lemma_square_step(n, b, e184, x184, x185);
    let x186 = 0x6c56c312a8f20bf27c19fb9d8f5c1b06898f14f0e3025e0641e4677ab3fe775bint;
    let e186 = prime::lemma_square_step(n, b, e185, x185, x186);
    let x187 = 0x3e15d9f5ca720f11c780cf7ff01efe98d4990317e8a292b0038f6f499ee115e5int;
    let e187 = prime::lemma_square_step(n, b, e186, x186, x187);
    let x188 = 0x6c55bb09a5b108cc6fbc98f9946856bc89c32560cc9adbdefba147f521a24e93int;
    let e188 = prime::lemma_square_step(n, b, e187, x187, x188);
    let x189 = 0x5cf8a7092732cf26f080d291da072ad08a8a548680b2c2d9f544d87ff5cf3a2fint;
    let e189 = prime::lemma_square_step(n, b, e188, x188, x189);
    let x190 = 0x7c1607a473cd3a14c8996fd4459b12794f9c6153e282eca2d3d227732a52c676int;
    let e190 = prime::lemma_square_step(n, b, e189, x189, x190);
    let x191 = 0x7785bbab670c36b6b0171544859e719175db4a0726519e049658400fab1cb050int;
    let e191 = prime::lemma_square_step(n, b, e190, x190, x191);
    let x192 = 0xcb7aa1308d0b0719103318a074f3575b15fc2ff02c3262187afe58de23d4651int;
    let e192 = prime::lemma_square_step(n, b, e191, x191, x192);
    let x193 = 0x13d8377128f8bbad73ddf93b4f98af6175244894c5f9da264bab73f63b94b359int;
    let e193 = prime::lemma_square_multiply_step(n, b, e192, x192, x193);
    let x194 = 0x68a545fd01a035182d68e5ccdeab584c5cba6b9dd604075b73f05efd3a20ad6cint;
    let e194 = prime::lemma_square_step(n, b, e193, x193, x194);
    let x195 = 0x6f211ab019ee72a54ae08f14849a39384a391eb305a5509316d2da7382088166int;
    let e195 = prime::lemma_square_step(n, b, e194, x194, x195);
    let x196 = 0x74f2c519fe08c9dfb0d223679cc8a16e39f512dd51ba7cf3534ff6f648b598b4int;
    let e196 = prime::lemma_square_multiply_step(n, b, e195, x195, x196);
    let x197 = 0x78a1a7fbb23c238fe7632b6eca935d66bad34bc865b95caca87a4f1d0de85845int;
    let e197 = prime::lemma_square_step(n, b, e196, x196, x197);
    let x198 = 0x6354f64dddb00d4f9dfa095321c12c4fae11245cbd9cac6f9f63037b13b91080int;
    let e198 = prime::lemma_square_step(n, b, e197, x197, x198);
    let x199 = 0x7dc6d36239eb6989533d23180e9db48f214fd4e1f6ba633b903473b2609b5d21int;
    let e199 = prime::lemma_square_step(n, b, e198, x198, x199);
    let x200 = 0x639874abe321d57e68bca4c14f72c104e91ed4a94d50f1b4e0896f371d5e0479int;
    let e200 = prime::lemma_square_multiply_step(n, b, e199, x199, x200);
    let x201 = 0x7a9ee6ae85fb36becc1c8d9ce8c22f6f784b273ccf45ed5934856e3284531bc2int;
    let e201 = prime::lemma_square_step(n, b, e200, x200, x201);
    let x202 = 0x7d285a953f6e8f4beefefdd1bb530b5712b51198df84a6e265701def1cd6b620int;
    let e202 = prime::lemma_square_step(n, b, e201, x201, x202);
    let x203 = 0x2417471ae3ecb77ced240102b1f4c4d68a81ec4c3a8f324994771b12629b3e86int;
    let e203 = prime::lemma_square_multiply_step(n, b, e202, x202, x203);
    let x204 = 0x1ced6b17bee7251ff0a444a92b19ec0293b51769968512c519e942504854d521int;
    let e204 = prime::lemma_square_multiply_step(n, b, e203, x203, x204);
    let x205 = 0x65d480a7419ddb6839be216d9957d85499012ddfa9409a328d0bcb3721e9f935int;
    let e205 = prime::lemma_square_step(n, b, e204, x204, x205);
    let x206 = 0x4c2516ffa5c14eb624650ef4d5a93bf44a9bdd453fd15d8e28e0ff73af7d64ddint;
    let e206 = prime::lemma_square_step(n, b, e205, x205, x206);
    let x207 = 0x5164cd187ce872e4a82a3317146dd2abc9d2b1e0a08df9486f127ec33022bd09int;
    let e207 = prime::lemma_square_step(n, b, e206, x206, x207);
    let x208 = 0x7592a9eec3406c89cc7acac97d43c341a5fc0827523e637f851403faa1f3bddfint;
    let e208 = prime::lemma_square_multiply_step(n, b, e207, x207, x208);
    let x209 = 0x4dd449e822cea3b96333472ce6e0a0084f7f27b2ad16a8a0ff6de121c1532a3bint;
    let e209 = prime::lemma_square_multiply_step(n, b, e208, x208, x209);
    let x210 = 0x191250f554aecce4be1349d7f5163213e6c19af8d33c56f9db9d314dced068a9int;
    let e210 = prime::lemma_square_multiply_step(n, b, e209, x209, x210);
    let x211 = 0x80141e117b85e00b42638abe7ecb6a3a1b24b7a17f512f16c8e1724591e723aint;
    let e211 = prime::lemma_square_multiply_step(n, b, e210, x210, x211);
    let x212 = 0x74e681a018b73361fcc4bb04d425337a69231d25c93d23fbaa44b1c13b7b904int;
    let e212 = prime::lemma_square_multiply_step(n, b, e211, x211, x212);
    let x213 = 0x5c532c70b8406dfdcd8bb3f9aef09fd9dee41a1b246db81555c97ccbb6cfa79bint;
    let e213 = prime::lemma_square_step(n, b, e212, x212, x213);
    let x214 = 0x6792b5d07d75acb45a2247a547f3f3ef9aefd4950f9b0c6d9129c7149ed836d7int;
    let e214 = prime::lemma_square_multiply_step(n, b, e213, x213, x214);
    let x215 = 0x670233037a2d8e1d468e992ca3e505e24d7484440b741550843ca570cdb008a0int;
    let e215 = prime::lemma_square_multiply_step(n, b, e214, x214, x215);
    let x216 = 0x77bf29b93562d799ff3c0046790e0b0928dc4a22f43592d149825c53dd50c621int;
    let e216 = prime::lemma_square_step(n, b, e215, x215, x216);
    let x217 = 0x6b9744482914fb5e68e0ba307247d5aaaefa2e1645fcb6ae4a17fbeca35fc846int;
    let e217 = prime::lemma_square_step(n, b, e216, x216, x217);
    let x218 = 0x5b0161ab7d07789d9ab896c5b06b231e6c504877f6ae6b51d4b4475efa6aaa68int;
    let e218 = prime::lemma_square_multiply_step(n, b, e217, x217, x218);
    let x219 = 0x55419ed3409290ba5f69029bc7d9fc83e8175ebe83fe40e9063e6b39329da0a9int;
    let e219 = prime::lemma_square_step(n, b, e218, x218, x219);
    let x220 = 0x6887b1834bf62125cb866b567a5aaa37d5042afc5730728dc10c590410eafc41int;
    let e220 = prime::lemma_square_step(n, b, e219, x219, x220);
    let x221 = 0x358d691d35523e4c32ad83ab43878287407ef59f64fc3f0340d11bf20448d787int;
    let e221 = prime::lemma_square_step(n, b, e220, x220, x221);
    let x222 = 0x1bfee829f5053ae9532df033886f66202007eb4e01b6c993e8a01039049787a2int;
    let e222 = prime::lemma_square_step(n, b, e221, x221, x222);
    let x223 = 0x188173da502e82d398288b6b32ef3bade3a5ad0f0322bb3bf1f12e730ab39926int;
    let e223 = prime::lemma_square_step(n, b, e222, x222, x223);
    let x224 = 0x2377a3ac9bde16d188ae7afca53553ff79fbdf5e6ca9b2d43f36a75effadda5bint;
    let e224 = prime::lemma_square_step(n, b, e223, x223, x224);
    let x225 = 0x1afd576988da6c4c7bcb486429a2dffb618414475f30604f4f3135b43be7a047int;
    let e225 = prime::lemma_square_multiply_step(n, b, e224, x224, x225);
    let x226 = 0x40b0afd512a632140c2f2b36c90a13924dbb0e31a68d82475441e0e5381849f7int;
    let e226 = prime::lemma_square_step(n, b, e225, x225, x226);
    let x227 = 0x65b1a74cfa903246c998a332cdf87e8c0125ebd523889fe3c85053d0df0b7930int;
    let e227 = prime::lemma_square_step(n, b, e226, x226, x227);
    let x228 = 0x4f31bc13c2cab01032f5b4319b3e556f356ed3b0bedcd0595a26d9913c11d174int;
    let e228 = prime::lemma_square_step(n, b, e227, x227, x228);
    let x229 = 0x7a3b08efa2728e4ae30d5b610eb303c0bcf49ca60c9cbae300546a2eec28886aint;
    let e229 = prime::lemma_square_step(n, b, e228, x228, x229);
    let x230 = 0x1748dd400a057b5e11d1937871075a8e32ed7510a6210d60deb2146bc745b2d6int;
    let e230 = prime::lemma_square_multiply_step(n, b, e229, x229, x230);
    let x231 = 0x3c31d21318fd2f9141ed4ab7e0dc785589298f3258fcf901ef4271763cb14418int;
    let e231 = prime::lemma_square_step(n, b, e230, x230, x231);
    let x232 = 0x33a72fdda4f7bd4cbbe97c877c60d2b0c57020a83a86f1895ad638b75d06f212int;
    let e232 = prime::lemma_square_multiply_step(n, b, e231, x231, x232);
    let x233 = 0x204e5435f9a6958e8921664e95abf8ade8c20e700b76ee82df9f887df85d5267int;
    let e233 = prime::lemma_square_step(n, b, e232, x232, x233);
    let x234 = 0x7e8071e13e3b3c970f88dc8b3e2b4ca1ff7a831db8b65faae2057b66a31216faint;
    let e234 = prime::lemma_square_multiply_step(n, b, e233, x233, x234);
    let x235 = 0x7fffffffffffffffffffffffffffffffffffffffffffffffffffffffffffffecint;
    let e235 = prime::lemma_square_multiply_step(n, b, e234, x234, x235);
}

proof fn lemma_83_is_prime()
    ensures
        prime::is_prime(83),
{
    if !prime::is_prime(83) {
        let r = prime::lemma_small_prime_divisor(83);
        assert(r <= 9) by (nonlinear_arith)
            requires
                r * r <= 83,
        ;
        assert(r == 2 || r == 3 || r == 4 || r == 5 || r == 6 || r == 7 || r == 8 || r == 9);
        assert(83int % 2 == 1);
        assert(83int % 3 == 2);
        assert(83int % 4 == 3);
        assert(83int % 5 == 3);
        assert(83int % 6 == 5);
        assert(83int % 7 == 6);
        assert(83int % 8 == 3);
        assert(83int % 9 == 2);
    }
}

/// A root of unity of order `83`.
proof fn lemma_root_83()
    ensures
        pow(0x1787int, 0x53nat) % 0x24f7int == 1int,
{
    let n = 0x24f7int;
    let b = 0x1787int;
    lemma_pow1(b);
    let x0 = b;
    let e0 = 1nat;
    let x1 = 0x12f2int;
    let e1 = prime::lemma_square_step(n, b, e0, x0, x1);
    let x2 = 0xccbint;
    let e2 = prime::lemma_square_multiply_step(n, b, e1, x1, x2);
    let x3 = 0xfceint;
    let e3 = prime::lemma_square_step(n, b, e2, x2, x3);
    let x4 = 0x218dint;
    let e4 = prime::lemma_square_step(n, b, e3, x3, x4);
    let x5 = 0x23daint;
    let e5 = prime::lemma_square_multiply_step(n, b, e4, x4, x5);
    let x6 = 1int;
    let e6 = prime::lemma_square_multiply_step(n, b, e5, x5, x6);
}

proof fn lemma_9463_is_prime()
    ensures
        prime::is_prime(0x24f7int),
{
    if !prime::is_prime(0x24f7int) {
        let r = prime::lemma_small_prime_divisor(0x24f7int);
        lemma_square_is_pow2(0x24f6int);
        assert(pow(0x24f6int, 2) % 0x24f7int == 1);
        assert(prime::is_prime(2));
        prime::lemma_order_divides(0x24f7int, r, 2int, 0x24f6int, 0x127bint);
        lemma_root_83();
        lemma_83_is_prime();
        prime::lemma_order_divides(0x24f7int, r, 0x53int, 0x1787int, 0xbint);
        prime::lemma_combine_divisors(r - 1, 2int, 0x53int);
        prime::lemma_divisor_too_large(0x24f7int, r, 0xa6int);
    }
}

/// A root of unity of order `9463`.
proof fn lemma_root_9463()
    ensures
        pow(0x10int, 0x24f7nat) % 0x93ddint == 1int,
{
    let n = 0x93ddint;
    let b = 0x10int;
    lemma_pow1(b);
    let x0 = b;
    let e0 = 1nat;
    let x1 = 0x100int;
    let e1 = prime::lemma_square_step(n, b, e0, x0, x1);
    let x2 = 0x6c23int;
    let e2 = prime::lemma_square_step(n, b, e1, x1, x2);
    let x3 = 0x1352int;
    let e3 = prime::lemma_square_multiply_step(n, b, e2, x2, x3);
    let x4 = 0x2696int;
    let e4 = prime::lemma_square_step(n, b, e3, x3, x4);
    let x5 = 0x6c37int;
    let e5 = prime::lemma_square_step(n, b, e4, x4, x5);
    let x6 = 0x33ceint;
    let e6 = prime::lemma_square_multiply_step(n, b, e5, x5, x6);
    let x7 = 0x5832int;
    let e7 = prime::lemma_square_multiply_step(n, b, e6, x6, x7);
    let x8 = 0x832dint;
    let e8 = prime::lemma_square_multiply_step(n, b, e7, x7, x8);
    let x9 = 0x6a6int;
    let e9 = prime::lemma_square_multiply_step(n, b, e8, x8, x9);
    let x10 = 0x4e08int;
    let e10 = prime::lemma_square_step(n, b, e9, x9, x10);
    let x11 = 0x5437int;
    let e11 = prime::lemma_square_multiply_step(n, b, e10, x10, x11);
    let x12 = 0x24f7int;
    let e12 = prime::lemma_square_multiply_step(n, b, e11, x11, x12);
    let x13 = 1int;
    let e13 = prime::lemma_square_multiply_step(n, b, e12, x12, x13);
}

proof fn lemma_37853_is_prime()
    ensures
        prime::is_prime(0x93ddint),
{
    if !prime::is_prime(0x93ddint) {
        let r = prime::lemma_small_prime_divisor(0x93ddint);
        lemma_root_9463();
        lemma_9463_is_prime();
        prime::lemma_order_divides(0x93ddint, r, 0x24f7int, 0x10int, 0x8026int);
        prime::lemma_divisor_too_large(0x93ddint, r, 0x24f7int);
    }
}

/// A root of unity of order `37853`.
proof fn lemma_root_37853()
    ensures
        pow(4int, 0x93ddnat) % 0x127bbint == 1int,
{
    let n = 0x127bbint;
    let b = 4int;
    lemma_pow1(b);
    let x0 = b;
    let e0 = 1nat;
    let x1 = 0x10int;
    let e1 = prime::lemma_square_step(n, b, e0, x0, x1);
    let x2 = 0x100int;
    let e2 = prime::lemma_square_step(n, b, e1, x1, x2);
    let x3 = 0x88cfint;
    let e3 = prime::lemma_square_multiply_step(n, b, e2, x2, x3);
    let x4 = 0x1653int;
    let e4 = prime::lemma_square_step(n, b, e3, x3, x4);
    let x5 = 0x7b14int;
    let e5 = prime::lemma_square_step(n, b, e4, x4, x5);
    let x6 = 0x7fb4int;
    let e6 = prime::lemma_square_multiply_step(n, b, e5, x5, x6);
    let x7 = 0xae24int;
    let e7 = prime::lemma_square_multiply_step(n, b, e6, x6, x7);
    let x8 = 0xa9d7int;
    let e8 = prime::lemma_square_multiply_step(n, b, e7, x7, x8);
    let x9 = 0xb51int;
    let e9 = prime::lemma_square_multiply_step(n, b, e8, x8, x9);
    let x10 = 0xfd47int;
    let e10 = prime::lemma_square_step(n, b, e9, x9, x10);
    let x11 = 0xa420int;
    let e11 = prime::lemma_square_multiply_step(n, b, e10, x10, x11);
    let x12 = 0x83b8int;
    let e12 = prime::lemma_square_multiply_step(n, b, e11, x11, x12);
    let x13 = 0xd917int;
    let e13 = prime::lemma_square_multiply_step(n, b, e12, x12, x13);
    let x14 = 0x93ddint;
    let e14 = prime::lemma_square_step(n, b, e13, x13, x14);
    let x15 = 1int;
    let e15 = prime::lemma_square_multiply_step(n, b, e14, x14, x15);
}

proof fn lemma_75707_is_prime()
    ensures
        prime::is_prime(0x127bbint),
{
    if !prime::is_prime(0x127bbint) {
        let r = prime::lemma_small_prime_divisor(0x127bbint);
        lemma_root_37853();
        lemma_37853_is_prime();
        prime::lemma_order_divides(0x127bbint, r, 0x93ddint, 4int, 0x6294int);
        prime::lemma_divisor_too_large(0x127bbint, r, 0x93ddint);
    }
}

proof fn lemma_7_is_prime()
    ensures
        prime::is_prime(7),
{
    if !prime::is_prime(7) {
        let r = prime::lemma_small_prime_divisor(7);
        assert(r <= 2) by (nonlinear_arith)
            requires
                r * r <= 7,
        ;
        assert(r == 2);
        assert(7int % 2 == 1);
    }
}

proof fn lemma_103_is_prime()
    ensures
        prime::is_prime(103),
{
    if !prime::is_prime(103) {
        let r = prime::lemma_small_prime_divisor(103);
        assert(r <= 10) by (nonlinear_arith)
            requires
                r * r <= 103,
        ;
        assert(r == 2 || r == 3 || r == 4 || r == 5 || r == 6 || r == 7 || r == 8 || r == 9 || r == 10);
        assert(103int % 2 == 1);
        assert(103int % 3 == 1);
        assert(103int % 4 == 3);
        assert(103int % 5 == 3);
        assert(103int % 6 == 1);
        assert(103int % 7 == 5);
        assert(103int % 8 == 7);
        assert(103int % 9 == 4);
        assert(103int % 10 == 3);
    }
}

/// A root of unity of order `7`.
proof fn lemma_root_7_mod_8574133()
    ensures
        pow(0x71fd46int, 0x7nat) % 0x82d4b5int == 1int,
{
    let n = 0x82d4b5int;
    let b = 0x71fd46int;
    lemma_pow1(b);
    let x0 = b;
    let e0 = 1nat;
    let x1 = 0x393cb8int;
    let e1 = prime::lemma_square_multiply_step(n, b, e0, x0, x1);
    let x2 = 1int;
    let e2 = prime::lemma_square_multiply_step(n, b, e1, x1, x2);
}

/// A root of unity of order `103`.
proof fn lemma_root_103_mod_8574133()
    ensures
        pow(0x41f04dint, 0x67nat) % 0x82d4b5int == 1int,
{
    let n = 0x82d4b5int;
    let b = 0x41f04dint;
    lemma_pow1(b);
    let x0 = b;
    let e0 = 1nat;
    let x1 = 0x1cd377int;
    let e1 = prime::lemma_square_multiply_step(n, b, e0, x0, x1);
    let x2 = 0x6b322aint;
    let e2 = prime::lemma_square_step(n, b, e1, x1, x2);
    let x3 = 0x664ab2int;
    let e3 = prime::lemma_square_step(n, b, e2, x2, x3);
    let x4 = 0x222e32int;
    let e4 = prime::lemma_square_multiply_step(n, b, e3, x3, x4);
    let x5 = 0x67b9fdint;
    let e5 = prime::lemma_square_multiply_step(n, b, e4, x4, x5);
    let x6 = 1int;
    let e6 = prime::lemma_square_multiply_step(n, b, e5, x5, x6);
}

proof fn lemma_8574133_is_prime()
    ensures
        prime::is_prime(0x82d4b5int),
{
    if !prime::is_prime(0x82d4b5int) {
        let r = prime::lemma_small_prime_divisor(0x82d4b5int);
        lemma_square_is_pow2(0x82d4b4int);
        assert(pow(0x82d4b4int, 2) % 0x82d4b5int == 1);
        assert(prime::is_prime(2));
        prime::lemma_order_divides(0x82d4b5int, r, 2int, 0x82d4b4int, 0x416a5aint);
        reveal_with_fuel(pow, 4);
        assert(pow(0x6c0491int, 3) % 0x82d4b5int == 1) by {
            lemma_square_is_pow2(0x6c0491int);
            lemma_pow_adds(0x6c0491int, 2, 1);
            lemma_pow1(0x6c0491int);
        }
        assert(prime::is_prime(3));
        prime::lemma_order_divides(0x82d4b5int, r, 3int, 0x6c0491int, 0x79ab6int);
        prime::lemma_combine_divisors(r - 1, 2int, 3int);
        lemma_root_7_mod_8574133();
        lemma_7_is_prime();
        prime::lemma_order_divides(0x82d4b5int, r, 7int, 0x71fd46int, 0x32b37int);
        prime::lemma_combine_divisors(r - 1, 6int, 7int);
        lemma_root_103_mod_8574133();
        lemma_103_is_prime();
        prime::lemma_order_divides(0x82d4b5int, r, 0x67int, 0x41f04dint, 0x35e15bint);
        prime::lemma_combine_divisors(r - 1, 0x2aint, 0x67int);
        prime::lemma_divisor_too_large(0x82d4b5int, r, 0x10e6int);
    }
}

/// A root of unity of order `7`.
proof fn lemma_root_7_mod_1919519569386763()
    ensures
        pow(0x3feed21da4894int, 0x7nat) % 0x6d1cafa129d0bint == 1int,
{
    let n = 0x6d1cafa129d0bint;
    let b = 0x3feed21da4894int;
    lemma_pow1(b);
    let x0 = b;
    let e0 = 1nat;
    let x1 = 0x5fe78ad2b010bint;
    let e1 = prime::lemma_square_multiply_step(n, b, e0, x0, x1);
    let x2 = 1int;
    let e2 = prime::lemma_square_multiply_step(n, b, e1, x1, x2);
}

/// A root of unity of order `8574133`.
proof fn lemma_root_8574133_mod_1919519569386763()
    ensures
        pow(0x3c3ffdef7c0b1int, 0x82d4b5nat) % 0x6d1cafa129d0bint == 1int,
{
    let n = 0x6d1cafa129d0bint;
    let b = 0x3c3ffdef7c0b1int;
    lemma_pow1(b);
    let x0 = b;
    let e0 = 1nat;
    let x1 = 0x158280d1c7fe9int;
    let e1 = prime::lemma_square_step(n, b, e0, x0, x1);
    let x2 = 0x8343f3dc7de5int;
    let e2 = prime::lemma_square_step(n, b, e1, x1, x2);
    let x3 = 0xa1a81c865ef3int;
    let e3 = prime::lemma_square_step(n, b, e2, x2, x3);
    let x4 = 0x392a5595195ebint;
    let e4 = prime::lemma_square_step(n, b, e3, x3, x4);
    let x5 = 0x612344a925350int;
    let e5 = prime::lemma_square_step(n, b, e4, x4, x5);
    let x6 = 0x2c250f4ecd406int;
    let e6 = prime::lemma_square_multiply_step(n, b, e5, x5, x6);
    let x7 = 0x626b6bf964a0bint;
    let e7 = prime::lemma_square_step(n, b, e6, x6, x7);
    let x8 = 0x6bb9918006e92int;
    let e8 = prime::lemma_square_multiply_step(n, b, e7, x7, x8);
    let x9 = 0x1af1b0376649dint;
    let e9 = prime::lemma_square_multiply_step(n, b, e8, x8, x9);
    let x10 = 0x32382c25445faint;
    let e10 = prime::lemma_square_step(n, b, e9, x9, x10);
    let x11 = 0x67339e4b07ecdint;
    let e11 = prime::lemma_square_multiply_step(n, b, e10, x10, x11);
    let x12 = 0x293c7db21880dint;
    let e12 = prime::lemma_square_step(n, b, e11, x11, x12);
    let x13 = 0x3e3bdbc06dca4int;
    let e13 = prime::lemma_square_multiply_step(n, b, e12, x12, x13);
    let x14 = 0x6bd0e231a5cd1int;
    let e14 = prime::lemma_square_step(n, b, e13, x13, x14);
    let x15 = 0x5319205ebe88cint;
    let e15 = prime::lemma_square_step(n, b, e14, x14, x15);
    let x16 = 0x65459d5b3f521int;
    let e16 = prime::lemma_square_multiply_step(n, b, e15, x15, x16);
    let x17 = 0x2741e82e93a2cint;
    let e17 = prime::lemma_square_step(n, b, e16, x16, x17);
    let x18 = 0x1efe5f3dc2faaint;
    let e18 = prime::lemma_square_multiply_step(n, b, e17, x17, x18);
    let x19 = 0x11a52cb514f6bint;
    let e19 = prime::lemma_square_multiply_step(n, b, e18, x18, x19);
    let x20 = 0x29c454b86c6a2int;
    let e20 = prime::lemma_square_step(n, b, e19, x19, x20);
    let x21 = 0x5967ff7111a20int;
    let e21 = prime::lemma_square_multiply_step(n, b, e20, x20, x21);
    let x22 = 0x3691e18f9008bint;
    let e22 = prime::lemma_square_step(n, b, e21, x21, x22);
    let x23 = 1int;
    let e23 = prime::lemma_square_multiply_step(n, b, e22, x22, x23);
}

proof fn lemma_1919519569386763_is_prime()
    ensures
        prime::is_prime(0x6d1cafa129d0bint),
{
    if !prime::is_prime(0x6d1cafa129d0bint) {
        let r = prime::lemma_small_prime_divisor(0x6d1cafa129d0bint);
        lemma_root_7_mod_1919519569386763();
        lemma_7_is_prime();
        prime::lemma_order_divides(0x6d1cafa129d0bint, r, 7int, 0x3feed21da4894int, 0x26bd6058faef6int);
        lemma_root_8574133_mod_1919519569386763();
        lemma_8574133_is_prime();
        prime::lemma_order_divides(0x6d1cafa129d0bint, r, 0x82d4b5int, 0x3c3ffdef7c0b1int, 0x495bef080ea35int);
        prime::lemma_combine_divisors(r - 1, 7int, 0x82d4b5int);
        prime::lemma_divisor_too_large(0x6d1cafa129d0bint, r, 0x393d0f3int);
    }
}

/// A root of unity of order `75707`.
proof fn lemma_root_75707()
    ensures
        pow(0xb52295a2da9f8731db89340ad8f16int, 0x127bbnat) % 0xe87c2a477b815a1793787395b23e1int == 1int,
{
    let n = 0xe87c2a477b815a1793787395b23e1int;
    let b = 0xb52295a2da9f8731db89340ad8f16int;
    lemma_pow1(b);
    let x0 = b;
    let e0 = 1nat;
    let x1 = 0x3b62fbf0454bfca4ca95012ca0a4eint;
    let e1 = prime::lemma_square_step(n, b, e0, x0, x1);
    let x2 = 0x2174c0a841e2df47e13363bef9ea2int;
    let e2 = prime::lemma_square_step(n, b, e1, x1, x2);
    let x3 = 0x74ab5e34e8fea10de53c9c15967e5int;
    let e3 = prime::lemma_square_multiply_step(n, b, e2, x2, x3);
    let x4 = 0xcfd659340de94c881dab80db7037eint;
    let e4 = prime::lemma_square_step(n, b, e3, x3, x4);
    let x5 = 0x4665a56cda2cd66895218e6498bbbint;
    let e5 = prime::lemma_square_step(n, b, e4, x4, x5);
    let x6 = 0x282892bd7af02fdc6b74bc6a00cb5int;
    let e6 = prime::lemma_square_multiply_step(n, b, e5, x5, x6);
    let x7 = 0xadc8d7fe15e40d703b1ef31a9a854int;
    let e7 = prime::lemma_square_multiply_step(n, b, e6, x6, x7);
    let x8 = 0x865f84902bb650cd8fd9bc7728748int;
    let e8 = prime::lemma_square_multiply_step(n, b, e7, x7, x8);
    let x9 = 0x7f1a809ed5b9b36afa3559e8d0e8aint;
    let e9 = prime::lemma_square_multiply_step(n, b, e8, x8, x9);
    let x10 = 0xb9bb4aa8ec80f1b5aa6826013cdb6int;
    let e10 = prime::lemma_square_step(n, b, e9, x9, x10);
    let x11 = 0x3744d624a468fd4305d47d54917ddint;
    let e11 = prime::lemma_square_multiply_step(n, b, e10, x10, x11);
    let x12 = 0x32a1a63676b5a7639cbf583865565int;
    let e12 = prime::lemma_square_multiply_step(n, b, e11, x11, x12);
    let x13 = 0x70bf163d20d729e8374cd4e4286d6int;
    let e13 = prime::lemma_square_multiply_step(n, b, e12, x12, x13);
    let x14 = 0x8fb529b4e1ef48735493911e8a902int;
    let e14 = prime::lemma_square_step(n, b, e13, x13, x14);
    let x15 = 0x575020802d820ae722f9f7eb09287int;
    let e15 = prime::lemma_square_multiply_step(n, b, e14, x14, x15);
    let x16 = 1int;
    let e16 = prime::lemma_square_multiply_step(n, b, e15, x15, x16);
}

/// A root of unity of order `1919519569386763`.
proof fn lemma_root_1919519569386763()
    ensures
        pow(0xaedd80ab27e8de3ca5f2fb22d5403int, 0x6d1cafa129d0bnat) % 0xe87c2a477b815a1793787395b23e1int == 1int,
{
    let n = 0xe87c2a477b815a1793787395b23e1int;
    let b = 0xaedd80ab27e8de3ca5f2fb22d5403int;
    lemma_pow1(b);
    let x0 = b;
    let e0 = 1nat;
    let x1 = 0x22f28959a6094f3ec9a3cec3753fdint;
    let e1 = prime::lemma_square_multiply_step(n, b, e0, x0, x1);
    let x2 = 0x7b07abf2a0bdfa0b9dd400295abint;
    let e2 = prime::lemma_square_step(n, b, e1, x1, x2);
    let x3 = 0x17406961c43ff0fec5a4ebd17405fint;
    let e3 = prime::lemma_square_multiply_step(n, b, e2, x2, x3);
    let x4 = 0x86f41bda7c9b2a0ea67579a5971cdint;
    let e4 = prime::lemma_square_multiply_step(n, b, e3, x3, x4);
    let x5 = 0x9d0091ad15cf6e36495814c254374int;
    let e5 = prime::lemma_square_step(n, b, e4, x4, x5);
    let x6 = 0x53d31a0a415a647d81ba17c64cb9cint;
    let e6 = prime::lemma_square_multiply_step(n, b, e5, x5, x6);
    let x7 = 0x2b2ff71ac81a474c712d0b8b1f329int;
    let e7 = prime::lemma_square_step(n, b, e6, x6, x7);
    let x8 = 0x71f9ced5e7ced7df9a9a7c51912e1int;
    let e8 = prime::lemma_square_step(n, b, e7, x7, x8);
    let x9 = 0xdd81996ef5ee110e553634ae0f1d1int;
    let e9 = prime::lemma_square_step(n, b, e8, x8, x9);
    let x10 = 0x8a4ce1ca61270808e9f80c903fa92int;
    let e10 = prime::lemma_square_multiply_step(n, b, e9, x9, x10);
    let x11 = 0x2f3ed96edb813d61b2da8bf51ce29int;
    let e11 = prime::lemma_square_multiply_step(n, b, e10, x10, x11);
    let x12 = 0xb93588d98b41cdea0a321d17728int;
    let e12 = prime::lemma_square_multiply_step(n, b, e11, x11, x12);
    let x13 = 0xdd0d55144f23d57128e602b6b725fint;
    let e13 = prime::lemma_square_step(n, b, e12, x12, x13);
    let x14 = 0x311c7da706526c7b84452ad03a077int;
    let e14 = prime::lemma_square_step(n, b, e13, x13, x14);
    let x15 = 0x176fb2166802fc583d656ce58fda1int;
    let e15 = prime::lemma_square_multiply_step(n, b, e14, x14, x15);
    let x16 = 0xe49cda690b91541a0b4bdedd2400bint;
    let e16 = prime::lemma_square_step(n, b, e15, x15, x16);
    let x17 = 0x14051b811dcd6cc4d88bd19834f2eint;
    let e17 = prime::lemma_square_multiply_step(n, b, e16, x16, x17);
    let x18 = 0x832c61ba16d59cb5e168e09fefff3int;
    let e18 = prime::lemma_square_step(n, b, e17, x17, x18);
    let x19 = 0x195189d68cb9280e581c0ea0d2fe2int;
    let e19 = prime::lemma_square_multiply_step(n, b, e18, x18, x19);
    let x20 = 0x3153b661018255cbd0a0f75054ca4int;
    let e20 = prime::lemma_square_multiply_step(n, b, e19, x19, x20);
    let x21 = 0x1d9d5ac3cfc7c71eb392e60e345b8int;
    let e21 = prime::lemma_square_multiply_step(n, b, e20, x20, x21);
    let x22 = 0xdef4b93c246326ad733ff245e8807int;
    let e22 = prime::lemma_square_multiply_step(n, b, e21, x21, x22);
    let x23 = 0x2fa31f134f23bd7fd36f5d18337bcint;
    let e23 = prime::lemma_square_multiply_step(n, b, e22, x22, x23);
    let x24 = 0x1a044229e28f73659f53fba8831aeint;
    let e24 = prime::lemma_square_step(n, b, e23, x23, x24);
    let x25 = 0x21ff9c4e06fc08717d7447d7a9696int;
    let e25 = prime::lemma_square_multiply_step(n, b, e24, x24, x25);
    let x26 = 0x2b80db59644f026a0903288aaaa5dint;
    let e26 = prime::lemma_square_step(n, b, e25, x25, x26);
    let x27 = 0xa3f6d8bae90507075a3515b89fd58int;
    let e27 = prime::lemma_square_step(n, b, e26, x26, x27);
    let x28 = 0x8abf84e490585b935976b1bdd486bint;
    let e28 = prime::lemma_square_step(n, b, e27, x27, x28);
    let x29 = 0x93b03ea99805f634625c94e0aedf8int;
    let e29 = prime::lemma_square_step(n, b, e28, x28, x29);
    let x30 = 0x523c96f162978ca422a4dfdd98edbint;
    let e30 = prime::lemma_square_multiply_step(n, b, e29, x29, x30);
    let x31 = 0x83433b15f03439cf39f87f61b2704int;
    let e31 = prime::lemma_square_step(n, b, e30, x30, x31);
    let x32 = 0x74d5f338e0a6231fe90cf6f410723int;
    let e32 = prime::lemma_square_step(n, b, e31, x31, x32);
    let x33 = 0x25fa893e3cde365fed4f034118db6int;
    let e33 = prime::lemma_square_multiply_step(n, b, e32, x32, x33);
    let x34 = 0x1acf64ac33b953f3a87c1cd463c50int;
    let e34 = prime::lemma_square_step(n, b, e33, x33, x34);
    let x35 = 0x8cda73d5157a5b35948e623134b41int;
    let e35 = prime::lemma_square_multiply_step(n, b, e34, x34, x35);
    let x36 = 0xd2f25f4ad230f919bdeb95c0e36f4int;
    let e36 = prime::lemma_square_step(n, b, e35, x35, x36);
    let x37 = 0x4436bc1a94d40dbb06bbcfb1d8b38int;
    let e37 = prime::lemma_square_step(n, b, e36, x36, x37);
    let x38 = 0x2b021a7ab552f243edc3ba9800c8eint;
    let e38 = prime::lemma_square_multiply_step(n, b, e37, x37, x38);
    let x39 = 0xc75cfb041436c33c739fc0605b903int;
    let e39 = prime::lemma_square_multiply_step(n, b, e38, x38, x39);
    let x40 = 0x8b6152c1cfcd0923cce5add5d51c5int;
    let e40 = prime::lemma_square_multiply_step(n, b, e39, x39, x40);
    let x41 = 0x96b899fdc0647b954aaad72656e3dint;
    let e41 = prime::lemma_square_step(n, b, e40, x40, x41);
    let x42 = 0xdd5967d7f15948d246efbdead218cint;
    let e42 = prime::lemma_square_multiply_step(n, b, e41, x41, x42);
    let x43 = 0x69d4d43d2894618c2459bec1393a5int;
    let e43 = prime::lemma_square_step(n, b, e42, x42, x43);
    let x44 = 0x7ad56a78a8c4b8c1209fe3b3e6158int;
    let e44 = prime::lemma_square_step(n, b, e43, x43, x44);
    let x45 = 0x3560eb68b455391e24f403ac8f46aint;
    let e45 = prime::lemma_square_step(n, b, e44, x44, x45);
    let x46 = 0x26780b9ac5112b06374380fca4b4cint;
    let e46 = prime::lemma_square_step(n, b, e45, x45, x46);
    let x47 = 0xa812cf0dbf2e7642952efba327e7aint;
    let e47 = prime::lemma_square_multiply_step(n, b, e46, x46, x47);
    let x48 = 0x570414ecf62a60bea569123ff9dbdint;
    let e48 = prime::lemma_square_step(n, b, e47, x47, x48);
    let x49 = 0xa4f5edfceeba5f3a9bd38539b0d94int;
    let e49 = prime::lemma_square_multiply_step(n, b, e48, x48, x49);
    let x50 = 1int;
    let e50 = prime::lemma_square_multiply_step(n, b, e49, x49, x50);
}

proof fn lemma_75445702479781427272750846543864801_is_prime()
    ensures
        prime::is_prime(0xe87c2a477b815a1793787395b23e1int),
{
    if !prime::is_prime(0xe87c2a477b815a1793787395b23e1int) {
        let r = prime::lemma_small_prime_divisor(0xe87c2a477b815a1793787395b23e1int);
        lemma_root_75707();
        lemma_75707_is_prime();
        prime::lemma_order_divides(0xe87c2a477b815a1793787395b23e1int, r, 0x127bbint, 0xb52295a2da9f8731db89340ad8f16int, 0x1bb0fee20f00433b82723f09a47f3int);
        lemma_root_1919519569386763();
        lemma_1919519569386763_is_prime();
        prime::lemma_order_divides(0xe87c2a477b815a1793787395b23e1int, r, 0x6d1cafa129d0bint, 0xaedd80ab27e8de3ca5f2fb22d5403int, 0xe5e342b4c0a3d507894bab5f20e8bint);
        prime::lemma_combine_divisors(r - 1, 0x127bbint, 0x6d1cafa129d0bint);
        prime::lemma_divisor_too_large(0xe87c2a477b815a1793787395b23e1int, r, 0x7e0bc25701e906409int);
    }
}

/// A root of unity of large prime order.
#[verifier::rlimit(60)]
proof fn lemma_root_of_large_order()
    ensures
        pow(0xa118eb0f9d8184bab59e8e45df736d65fba3c64f4aa855bc8921ac18308int, 0xe87c2a477b815a1793787395b23e1nat) % 0xabaf8c6b094fd0f32c2ccabab864dbecd99144679c1adf804898fb2042bint == 1int,
{
    let n = 0xabaf8c6b094fd0f32c2ccabab864dbecd99144679c1adf804898fb2042bint;
    let b = 0xa118eb0f9d8184bab59e8e45df736d65fba3c64f4aa855bc8921ac18308int;
    lemma_pow1(b);
    let x0 = b;
    let e0 = 1nat;
    let x1 = 0x8b4cf1d206f83670a1bd65b3b5531c0696ae852450b960b7180d25e9d0eint;
    let e1 = prime::lemma_square_multiply_step(n, b, e0, x0, x1);
    let x2 = 0x1c285ecdff9df456e8a2d1eda35f795e719047659a5285709f272407023int;
    let e2 = prime::lemma_square_multiply_step(n, b, e1, x1, x2);
    let x3 = 0x58dc130308dd4efe1f821ac60fa137b9ef44bdb398e9534e07e281a56eint;
    let e3 = prime::lemma_square_step(n, b, e2, x2, x3);
    let x4 = 0x655b44735bea9793d26cfbf9ca08b390404b9898b7cf1e07232912a8115int;
    let e4 = prime::lemma_square_multiply_step(n, b, e3, x3, x4);
    let x5 = 0x7d85cfde4f00836c342a258930be7dfa0b10a763f916e2724f0cfaab568int;
    let e5 = prime::lemma_square_step(n, b, e4, x4, x5);
    let x6 = 0x1a28daf693cccc624e0bed7ddb8357c1a09d9fbb2c782a4021cd0ebd287int;
    let e6 = prime::lemma_square_step(n, b, e5, x5, x6);
    let x7 = 0x96b3210909a8c8117c615e847ef91d9bb7579d4c7da760f5028d0d749eeint;
    let e7 = prime::lemma_square_step(n, b, e6, x6, x7);
    let x8 = 0x2dbabdb7fd3ab0e5cff3421d4262010e8b6108db546c1226ba5df25b038int;
    let e8 = prime::lemma_square_step(n, b, e7, x7, x8);
    let x9 = 0x2639a6ecb2839b20f25da83ede3c574b0807b352e7cdd33d4a86415a61dint;
    let e9 = prime::lemma_square_multiply_step(n, b, e8, x8, x9);
    let x10 = 0x8c4d6986c02ced31ce7b901472c22d56dc72f9e4e6b86b514b041922c02int;
    let e10 = prime::lemma_square_multiply_step(n, b, e9, x9, x10);
    let x11 = 0x23d6a1da936a6f2e2c3d154bbd725a5227612211b8fad6a6ae7b8c04b12int;
    let e11 = prime::lemma_square_multiply_step(n, b, e10, x10, x11);
    let x12 = 0x42febfad9ff7e99106a420f115b3593a12dd9d56589eb9a41d337a7d765int;
    let e12 = prime::lemma_square_multiply_step(n, b, e11, x11, x12);
    let x13 = 0x66e62422dac05613028954ef8af6a89794fe4cb8fc39a01a67918ac4463int;
    let e13 = prime::lemma_square_multiply_step(n, b, e12, x12, x13);
    let x14 = 0x894eb11f6f65cb412df97787a79fdecac2b4d5cdb7c3af60da3a9e4ec3aint;
    let e14 = prime::lemma_square_step(n, b, e13, x13, x14);
    let x15 = 0x73e2b308c4d77136eb35c70ef4781525bbb4035cd27c88fb02700bbe077int;
    let e15 = prime::lemma_square_step(n, b, e14, x14, x15);
    let x16 = 0x574efbe0432d1bc1463bd79851e1159e6493f1f88ab6e3f87cc00b870f2int;
    let e16 = prime::lemma_square_step(n, b, e15, x15, x16);
    let x17 = 0xa48ce48fa3f1e6756db9b4c730858ecadac6628919b4ae5b86a2d798ccbint;
    let e17 = prime::lemma_square_step(n, b, e16, x16, x17);
    let x18 = 0x23f1ac0147de32b6d27b265ee0c64efc7feafb559ea73d02b864e47663dint;
    let e18 = prime::lemma_square_multiply_step(n, b, e17, x17, x18);
    let x19 = 0xa4221117ec614844a3207f77b9b3be05f68d922de37afd7a54e101a8de5int;
    let e19 = prime::lemma_square_step(n, b, e18, x18, x19);
    let x20 = 0x8d71be0bb741e4d19d20f2a0efcabd38cb0e8c70cb88838738e8b98e6dint;
    let e20 = prime::lemma_square_multiply_step(n, b, e19, x19, x20);
    let x21 = 0x7e3eca5495a5e3c2212eb8688487e79bc6c042389f01a1b706748ef3332int;
    let e21 = prime::lemma_square_step(n, b, e20, x20, x21);
    let x22 = 0x63b8ebd93c11954871c32fc2e372d743a77edaff8020cfdc80700af7c9bint;
    let e22 = prime::lemma_square_multiply_step(n, b, e21, x21, x22);
    let x23 = 0x6997c13781fe17841280a22b659c00834a959d6138ec9d3f2821d9d2c64int;
    let e23 = prime::lemma_square_step(n, b, e22, x22, x23);
    let x24 = 0x74c104ec735378a8d431c6416d23a65b4d32ba1fe7a5b66b328f7e86abbint;
    let e24 = prime::lemma_square_step(n, b, e23, x23, x24);
    let x25 = 0x45deae5d1733e9e844d8f1737a466b03c3269c73dc12c13607bd020f10cint;
    let e25 = prime::lemma_square_multiply_step(n, b, e24, x24, x25);
    let x26 = 0x6710d0b65bc78428d08d3841ce3ace388c1477d55df1ee64b52783b69feint;
    let e26 = prime::lemma_square_step(n, b, e25, x25, x26);
    let x27 = 0x5109b0515e8fba2c205ecedd1416f736fecc816926b9a887bbbc62ff635int;
    let e27 = prime::lemma_square_step(n, b, e26, x26, x27);
    let x28 = 0x3ebd9d5d55ca7513761120e402f7b2b4d5939bad7c4b6e0a39953e4a3e9int;
    let e28 = prime::lemma_square_step(n, b, e27, x27, x28);
    let x29 = 0x3917f5d4e24b10f3b58aaacad3399baa5982d0d3819b4be1d9ed76dff91int;
    let e29 = prime::lemma_square_multiply_step(n, b, e28, x28, x29);
    let x30 = 0x4d92e60734b92151fa93fb30fcc01c2ec6c0908308f274a4f83c793714dint;
    let e30 = prime::lemma_square_multiply_step(n, b, e29, x29, x30);
    let x31 = 0x8c4e4b1bd51e029a05cebe12fcd639608ca9d69136c13fec807f0df59f1int;
    let e31 = prime::lemma_square_multiply_step(n, b, e30, x30, x31);
    let x32 = 0x9a26dab0ae6058921ce8ffa267c0979fa078023d696f6e94053fe1c9183int;
    let e32 = prime::lemma_square_step(n, b, e31, x31, x32);
    let x33 = 0xa3dfd549c46392b28ec4e53be7d094e059fa1b1a6e42df45b515096160int;
    let e33 = prime::lemma_square_multiply_step(n, b, e32, x32, x33);
    let x34 = 0xa256c07ca7201adeaa71af560709965872f70b47bb573b9afc65c68e8f1int;
    let e34 = prime::lemma_square_multiply_step(n, b, e33, x33, x34);
    let x35 = 0xc21b19452b898884e91a01ccf71d26c0c00f96f6de89e8a751442eee1bint;
    let e35 = prime::lemma_square_multiply_step(n, b, e34, x34, x35);
    let x36 = 0x88399345eba7ddb31ce1dbc66032b1c2f14a87c26500aca741141a040baint;
    let e36 = prime::lemma_square_multiply_step(n, b, e35, x35, x36);
    let x37 = 0x1521b4139d59dd46e5565b9db568908af5f45f9eaeef2ebe1a7d5d9f911int;
    let e37 = prime::lemma_square_step(n, b, e36, x36, x37);
    let x38 = 0x814b321561d7d0ed77172c7837bf54c460708ffbd230922f89ae1fba2a2int;
    let e38 = prime::lemma_square_multiply_step(n, b, e37, x37, x38);
    let x39 = 0x4145cdc672cce1babe03b600ef34e5cc90c4a8f76dafbaa7e74f4d58d14int;
    let e39 = prime::lemma_square_multiply_step(n, b, e38, x38, x39);
    let x40 = 0x5a7ae6b65105339b61c12d319c3c1057b4b930f763c5b98b7d5373db59cint;
    let e40 = prime::lemma_square_multiply_step(n, b, e39, x39, x40);
    let x41 = 0x4c37276d9691be7c056b2f28a7d7fc2d5573e792c34a16d50a712730344int;
    let e41 = prime::lemma_square_step(n, b, e40, x40, x41);
    let x42 = 0x1275dddf30f6f5b353ed555df41b1d14ab2c410f2cf2d59ff3b3f828283int;
    let e42 = prime::lemma_square_step(n, b, e41, x41, x42);
    let x43 = 0x4909b9ea2ec9a7b910cf3eb8bafb40f4867d33792b4378132e9998d4c8aint;
    let e43 = prime::lemma_square_step(n, b, e42, x42, x43);
    let x44 = 0x135ca7a6083f56b92b0f3166b6afb9183c66bd7e221f4124a64ffc7b79int;
    let e44 = prime::lemma_square_step(n, b, e43, x43, x44);
    let x45 = 0x937e3ad229d4b3d482feb386306ef59a45880b0eb66769396237b6737eaint;
    let e45 = prime::lemma_square_step(n, b, e44, x44, x45);
    let x46 = 0x826cb454bce2819745430223de1b84d36322a6db64e1542fc42e29adac0int;
    let e46 = prime::lemma_square_step(n, b, e45, x45, x46);
    let x47 = 0x5bc94b0f9f61f6290a8e318de8176e243bf0ac26d0870c5dc8fc7072899int;
    let e47 = prime::lemma_square_multiply_step(n, b, e46, x46, x47);
    let x48 = 0x2c1ad7e1850542ce850cfef0c518fc6cf35c902715ad4cd1bff9d07c107int;
    let e48 = prime::lemma_square_step(n, b, e47, x47, x48);
    let x49 = 0xdb193a211c8411a640a2dc782009608f9d15f6db4a3705061675dcae21int;
    let e49 = prime::lemma_square_multiply_step(n, b, e48, x48, x49);
    let x50 = 0x8cb0df9f9bd995ebdbd0b2f81b2b02679640fc30253f82212897489dfa2int;
    let e50 = prime::lemma_square_step(n, b, e49, x49, x50);
    let x51 = 0x41a0bd2693151d443b62e7c331b15e77c8072326dd16e247efb7bfbbe39int;
    let e51 = prime::lemma_square_multiply_step(n, b, e50, x50, x51);
    let x52 = 0x8c5a87bb28f66d2845b1dbad230965d7c341f1338e57e9e0e55bdae2de3int;
    let e52 = prime::lemma_square_multiply_step(n, b, e51, x51, x52);
    let x53 = 0x3c9ba986d51528485eba12677a53fb2e15dbf3be3898cd080468f3081ceint;
    let e53 = prime::lemma_square_step(n, b, e52, x52, x53);
    let x54 = 0x22fb53421c84439ebc0659b177cb219085ba041bffb4b250c37468e8cdbint;
    let e54 = prime::lemma_square_multiply_step(n, b, e53, x53, x54);
    let x55 = 0x3adf545ec73b51fedeb89bde091359c2417c7ff0a2a6cf0a26dc49f2e97int;
    let e55 = prime::lemma_square_step(n, b, e54, x54, x55);
    let x56 = 0x1d5ea61f2cbe225b538f19004456a066c711d2b2922dc61a9db9402d113int;
    let e56 = prime::lemma_square_step(n, b, e55, x55, x56);
    let x57 = 0x8085b9363e04ff6f91ca4f7359073735fc00b5b247abd03f5e7c6be0adaint;
    let e57 = prime::lemma_square_step(n, b, e56, x56, x57);
    let x58 = 0x6fa4d8eabfdcf11a306015cf431ce0f5ca2d1d066e00531ca107ef9c104int;
    let e58 = prime::lemma_square_step(n, b, e57, x57, x58);
    let x59 = 0xc333e695c557dea1833a6d4c2ebd8e9becd7e01880c70229f73ef0ee6fint;
    let e59 = prime::lemma_square_multiply_step(n, b, e58, x58, x59);
    let x60 = 0x7c1736c3918a05259e02cfdbc326c5aee5ae2ad0dcca4f58ae46f24fb3cint;
    let e60 = prime::lemma_square_step(n, b, e59, x59, x60);
    let x61 = 0x42a137b599d4ccaff49da9f7f91a3595e00e3c24721375b63d046801884int;
    let e61 = prime::lemma_square_multiply_step(n, b, e60, x60, x61);
    let x62 = 0xa2fd1fa64ee822268ee8214a7640ee860028ccf5af3de686026eb2aec62int;
    let e62 = prime::lemma_square_multiply_step(n, b, e61, x61, x62);
    let x63 = 0xe0b5ae692be86abe4f0763d240a8c16e14af973a0442bf342a9877f25fint;
    let e63 = prime::lemma_square_multiply_step(n, b, e62, x62, x63);
    let x64 = 0x13d8e5901f6c8ba1bab7a879e53b73cdeefe2764865bd0c251e5ea3c736int;
    let e64 = prime::lemma_square_multiply_step(n, b, e63, x63, x64);
    let x65 = 0x5544d14241e0efc6ed836c880257df8dbd63fd0ba6502c7b66617d9db60int;
    let e65 = prime::lemma_square_step(n, b, e64, x64, x65);
    let x66 = 0x2d276a198937bd057addbbc7a952e6195bdd1515b34a80a614de2f38034int;
    let e66 = prime::lemma_square_step(n, b, e65, x65, x66);
    let x67 = 0x4dbda4b7be7c597933d2c2e02ed65b14f8b8beb749fb71e27a01b85eac5int;
    let e67 = prime::lemma_square_multiply_step(n, b, e66, x66, x67);
    let x68 = 0x77a9083eb4f4dc2edd89f62f8727a4dae6f8febd5f7fb1b4f019b79ab95int;
    let e68 = prime::lemma_square_step(n, b, e67, x67, x68);
    let x69 = 0x112745b5b0ac7355ea2834b6a1f04b75b62f6ce591b21e384cae733b0e9int;
    let e69 = prime::lemma_square_step(n, b, e68, x68, x69);
    let x70 = 0xdc15c24c992029e8c4e6786e220ee4015fd80b154bd30e5036f1c04e50int;
    let e70 = prime::lemma_square_multiply_step(n, b, e69, x69, x70);
    let x71 = 0x7879a5f59674f0f8baee443d58990af1d4b8284319cc263bb828de171d2int;
    let e71 = prime::lemma_square_multiply_step(n, b, e70, x70, x71);
    let x72 = 0x93f5ebfe0513c5946b27e33a8f8f0c1bb4b0b37aa8d2963757fc6e501b8int;
    let e72 = prime::lemma_square_step(n, b, e71, x71, x72);
    let x73 = 0x1b38053a9c01248edb08b3a320656956ef9d30e027ff2e771a3ad53c1a6int;
    let e73 = prime::lemma_square_multiply_step(n, b, e72, x72, x73);
    let x74 = 0x894e47a3ad01834d18fe42e9715023a1e148048095ef7e52e8cdc825f73int;
    let e74 = prime::lemma_square_multiply_step(n, b, e73, x73, x74);
    let x75 = 0x87eb4cb255a29a8e7c5a4e5083a911c9193628ec41e6c414f36ebcf160bint;
    let e75 = prime::lemma_square_multiply_step(n, b, e74, x74, x75);
    let x76 = 0x1647086a7fed5d421930ecffc127b37ccc7e8dff61932f69b557cd2d278int;
    let e76 = prime::lemma_square_multiply_step(n, b, e75, x75, x76);
    let x77 = 0xccae0b69a05f5ce20b55c81b50394bdfe023d0428cb66710b71d1c8354int;
    let e77 = prime::lemma_square_step(n, b, e76, x76, x77);
    let x78 = 0x5ab97eaa58158e091556f2ce0cf87d59cd724f6ba26f4922eb6d418ed55int;
    let e78 = prime::lemma_square_step(n, b, e77, x77, x78);
    let x79 = 0x576f3c4c28aec4e2460338906ab9ac647159bbe6483e87e60682c6b6c3int;
    let e79 = prime::lemma_square_step(n, b, e78, x78, x79);
    let x80 = 0xa26416b484a38c5754ce27f60fb4cea2629e2d5714467911e7350832f6cint;
    let e80 = prime::lemma_square_step(n, b, e79, x79, x80);
    let x81 = 0x25f1bebb0dd9b80cc0aa701df7c2f76d1e3076919f7c7b0f234463399d8int;
    let e81 = prime::lemma_square_multiply_step(n, b, e80, x80, x81);
    let x82 = 0xa879d94320d3c13283e150de5974f6f506b02c944574488f3763b3a604bint;
    let e82 = prime::lemma_square_multiply_step(n, b, e81, x81, x82);
    let x83 = 0x64cac31c919b935f1547c173a2ecab65db86cdc408a49da5b2070910130int;
    let e83 = prime::lemma_square_multiply_step(n, b, e82, x82, x83);
    let x84 = 0xa3f671f44ffffcca283fe63d27efa101bf0c5b32fc4037fad2dd847c3e5int;
    let e84 = prime::lemma_square_step(n, b, e83, x83, x84);
    let x85 = 0x1f1faa2ad73d39374e4b9a14393289259e73ff1d149fd4c38a014fc8e2cint;
    let e85 = prime::lemma_square_step(n, b, e84, x84, x85);
    let x86 = 0x98b79ecec4294ccd223ef062fb80e95a357d0c0ad2128f3807443f2945cint;
    let e86 = prime::lemma_square_multiply_step(n, b, e85, x85, x86);
    let x87 = 0x42a75d74dd5854e48c5bc6f3120861bfa26cdc4b107213726e674ef60d3int;
    let e87 = prime::lemma_square_multiply_step(n, b, e86, x86, x87);
    let x88 = 0x71b521f7b180d00e938ba880945963d153c59e511ca39a951bbbe6e0b3aint;
    let e88 = prime::lemma_square_multiply_step(n, b, e87, x87, x88);
    let x89 = 0x452787058f602bea144998ad11ac27816a18e6dbb18035d5a8e033003a6int;
    let e89 = prime::lemma_square_step(n, b, e88, x88, x89);
    let x90 = 0xa4158e4956f643d130fda6719c0cdddd354fcc534d071877fd1882a4b61int;
    let e90 = prime::lemma_square_step(n, b, e89, x89, x90);
    let x91 = 0x1eef041bbbe4684ed28066981df940860160a7f2a67079c025a8bcc97eeint;
    let e91 = prime::lemma_square_multiply_step(n, b, e90, x90, x91);
    let x92 = 0x47aff62216702f36f429db368b159192106d9e80a240d5a69216f1286ccint;
    let e92 = prime::lemma_square_step(n, b, e91, x91, x92);
    let x93 = 0x3640de1fdecfb7b133784f9091e75f84e8a6fe8cff6469f06a72a559eacint;
    let e93 = prime::lemma_square_multiply_step(n, b, e92, x92, x93);
    let x94 = 0x2f1aad0673654ce104a16d68c2d269ca9db6af558e83ddb81b12f05e607int;
    let e94 = prime::lemma_square_step(n, b, e93, x93, x94);
    let x95 = 0xaa8753e2e48c553a6ee84837a7afaa12e90be701a6d6ebc59a010d5907cint;
    let e95 = prime::lemma_square_multiply_step(n, b, e94, x94, x95);
    let x96 = 0x807d90dbedcf9cbe1f6bbb8a98036e5a745f2dbbf2f461b0ac3cdae2a48int;
    let e96 = prime::lemma_square_multiply_step(n, b, e95, x95, x96);
    let x97 = 0x8c36d937b7fb8d95297ae3f389bd5be20a467de384373d8a4fdd91c9628int;
    let e97 = prime::lemma_square_step(n, b, e96, x96, x97);
    let x98 = 0x5eb4cba33076bea583df5bfa75196061584655185920758313975605f60int;
    let e98 = prime::lemma_square_multiply_step(n, b, e97, x97, x98);
    let x99 = 0x231fd69125647c9c3524a011dcefd665c1ec24fd92619a6b2314f466802int;
    let e99 = prime::lemma_square_multiply_step(n, b, e98, x98, x99);
    let x100 = 0x5afd89e3f5f0e9cf0d27a20fd9880b987003ab470ec2c75450aefb7672eint;
    let e100 = prime::lemma_square_step(n, b, e99, x99, x100);
    let x101 = 0x29dbd3ecd3042d5e90b82161bf909eb5bb0722739ab4fb5798e80b6a3a7int;
    let e101 = prime::lemma_square_step(n, b, e100, x100, x101);
    let x102 = 0x6df099dba2f52c4847641c2fdfc3bf113296c14ff325005e0b844d7cf59int;
    let e102 = prime::lemma_square_multiply_step(n, b, e101, x101, x102);
    let x103 = 0x430f5a0aceb9a83e8cecc8696a4a796abd5746ff3b4aad08f17e18a89f2int;
    let e103 = prime::lemma_square_step(n, b, e102, x102, x103);
    let x104 = 0x89f866642659d689db1147413bde07bb95836b8f48acf66afeb0a783d37int;
    let e104 = prime::lemma_square_step(n, b, e103, x103, x104);
    let x105 = 0x4cec2728adecc3dac46ad3cda7a0378037a6d6430311d36321168174082int;
    let e105 = prime::lemma_square_step(n, b, e104, x104, x105);
    let x106 = 0x593999941d53fa862093b8c1312ed5dd5da4c9cfee977a895d43bdb4496int;
    let e106 = prime::lemma_square_multiply_step(n, b, e105, x105, x106);
    let x107 = 0xa7f2a89537e29ecc3ef90f60dbb855ebdbd8184e6922ec0915f7e3b8486int;
    let e107 = prime::lemma_square_multiply_step(n, b, e106, x106, x107);
    let x108 = 0x3140a2a0e25c94e183f329a89f21ddd6b15fb46c014a58949715bdaf083int;
    let e108 = prime::lemma_square_multiply_step(n, b, e107, x107, x108);
    let x109 = 0x1dec702ff514def393a13de3791001b6fec476630ba72aca68d010bb15aint;
    let e109 = prime::lemma_square_multiply_step(n, b, e108, x108, x109);
    let x110 = 0x65daae495df8bf03f796cd0fb17417360decc828634efa5843fcb38975int;
    let e110 = prime::lemma_square_multiply_step(n, b, e109, x109, x110);
    let x111 = 0x9d6ef5f5f52fef9387c54ea455f297eab23cc8947f1566a17c9ec5cccafint;
    let e111 = prime::lemma_square_step(n, b, e110, x110, x111);
    let x112 = 0x5b12fd89764032e8cf229dcee5c41333b78d93fcce1b082fd78b6aa59d9int;
    let e112 = prime::lemma_square_step(n, b, e111, x111, x112);
    let x113 = 0xd5132c9e69001a4c28ac6027327fd2ad76e94ff28a7be4fb3616a5677aint;
    let e113 = prime::lemma_square_step(n, b, e112, x112, x113);
    let x114 = 0x1169c6da3a43d317a0dd55f1163954c1dddae49eb6508bedb8c8bbe36c5int;
    let e114 = prime::lemma_square_step(n, b, e113, x113, x114);
    let x115 = 1int;
    let e115 = prime::lemma_square_multiply_step(n, b, e114, x114, x115);
}

proof fn lemma_q_is_prime()
    ensures
        prime::is_prime(0xabaf8c6b094fd0f32c2ccabab864dbecd99144679c1adf804898fb2042bint),
{
    if !prime::is_prime(0xabaf8c6b094fd0f32c2ccabab864dbecd99144679c1adf804898fb2042bint) {
        let r = prime::lemma_small_prime_divisor(0xabaf8c6b094fd0f32c2ccabab864dbecd99144679c1adf804898fb2042bint);
        lemma_square_is_pow2(0xabaf8c6b094fd0f32c2ccabab864dbecd99144679c1adf804898fb2042aint);
        assert(pow(0xabaf8c6b094fd0f32c2ccabab864dbecd99144679c1adf804898fb2042aint, 2) % 0xabaf8c6b094fd0f32c2ccabab864dbecd99144679c1adf804898fb2042bint == 1);
        assert(prime::is_prime(2));
        prime::lemma_order_divides(0xabaf8c6b094fd0f32c2ccabab864dbecd99144679c1adf804898fb2042bint, r, 2int, 0xabaf8c6b094fd0f32c2ccabab864dbecd99144679c1adf804898fb2042aint, 0x55d7c63584a7e8799616655d5c326df66cc8a233ce0d6fc0244c7d90215int);
        reveal_with_fuel(pow, 4);
        assert(pow(0x4677dcfd5b5696e879646c54a12f4f2d5dc2b0291aa779e205a68b682dbint, 3) % 0xabaf8c6b094fd0f32c2ccabab864dbecd99144679c1adf804898fb2042bint == 1) by {
            lemma_square_is_pow2(0x4677dcfd5b5696e879646c54a12f4f2d5dc2b0291aa779e205a68b682dbint);
            lemma_pow_adds(0x4677dcfd5b5696e879646c54a12f4f2d5dc2b0291aa779e205a68b682dbint, 2, 1);
            lemma_pow1(0x4677dcfd5b5696e879646c54a12f4f2d5dc2b0291aa779e205a68b682dbint);
        }
        assert(prime::is_prime(3));
        prime::lemma_order_divides(0xabaf8c6b094fd0f32c2ccabab864dbecd99144679c1adf804898fb2042bint, r, 3int, 0x4677dcfd5b5696e879646c54a12f4f2d5dc2b0291aa779e205a68b682dbint, 0x5af7be9d926dae549fa70db59a88cd8ec71ff2e209da170a2e83ce481d3int);
        prime::lemma_combine_divisors(r - 1, 2int, 3int);
        lemma_root_of_large_order();
        lemma_75445702479781427272750846543864801_is_prime();
        prime::lemma_order_divides(0xabaf8c6b094fd0f32c2ccabab864dbecd99144679c1adf804898fb2042bint, r, 0xe87c2a477b815a1793787395b23e1int, 0xa118eb0f9d8184bab59e8e45df736d65fba3c64f4aa855bc8921ac18308int, 0xa35a14fb1452ddd0fca6eef50ac9bd9a369cab894104fc366d4fa595e38int);
        prime::lemma_combine_divisors(r - 1, 6int, 0xe87c2a477b815a1793787395b23e1int);
        prime::lemma_divisor_too_large(0xabaf8c6b094fd0f32c2ccabab864dbecd99144679c1adf804898fb2042bint, r, 0x572e8fdace5081c8d74d2b5822d746int);
    }
}

/// The field characteristic is prime.
pub proof fn lemma_p_is_prime()
    ensures
        prime::is_prime(fp::p()),
{
    if !prime::is_prime(0x7fffffffffffffffffffffffffffffffffffffffffffffffffffffffffffffedint) {
        let r = prime::lemma_small_prime_divisor(0x7fffffffffffffffffffffffffffffffffffffffffffffffffffffffffffffedint);
        lemma_d_root_power();
        let w = 0x39594c88ef13f78c58fa420556dc156b33250156d89d6028b20fa90adb16775bint;
        lemma_pow_multiplies(w, 2, 0xabaf8c6b094fd0f32c2ccabab864dbecd99144679c1adf804898fb2042bnat);
        lemma_pow_multiplies(w, 0xabaf8c6b094fd0f32c2ccabab864dbecd99144679c1adf804898fb2042bnat, 2);
        lemma_square_is_pow2(w);
        lemma_square_is_pow2(pow(w, 0xabaf8c6b094fd0f32c2ccabab864dbecd99144679c1adf804898fb2042bnat));
        lemma_pow_mod_noop(w * w, 0xabaf8c6b094fd0f32c2ccabab864dbecd99144679c1adf804898fb2042bnat, 0x7fffffffffffffffffffffffffffffffffffffffffffffffffffffffffffffedint);
        let c = pow(w, 0xabaf8c6b094fd0f32c2ccabab864dbecd99144679c1adf804898fb2042bnat);
        vstd::arithmetic::div_mod::lemma_mul_mod_noop(c, c, 0x7fffffffffffffffffffffffffffffffffffffffffffffffffffffffffffffedint);
        assert(pow(0x4a0757a58983a59e9f2500136f5e9ed11cb2adffe609d5869dc1498972a2fd72int, 0xabaf8c6b094fd0f32c2ccabab864dbecd99144679c1adf804898fb2042bnat) % 0x7fffffffffffffffffffffffffffffffffffffffffffffffffffffffffffffedint == 1);
        lemma_q_is_prime();
        prime::lemma_order_divides(0x7fffffffffffffffffffffffffffffffffffffffffffffffffffffffffffffedint, r, 0xabaf8c6b094fd0f32c2ccabab864dbecd99144679c1adf804898fb2042bint, 0x4a0757a58983a59e9f2500136f5e9ed11cb2adffe609d5869dc1498972a2fd72int, 0x603da1e91a0f3bbac22c82b864c616212d766466b0ebb0ee05a372b5ee440714int);
        prime::lemma_divisor_too_large(0x7fffffffffffffffffffffffffffffffffffffffffffffffffffffffffffffedint, r, 0xabaf8c6b094fd0f32c2ccabab864dbecd99144679c1adf804898fb2042bint);
    }
}

/// `d^((p-1)/2) = -1`: the curve constant is not a square.
pub proof fn lemma_d_euler()
    ensures
        fp::fpow(fp::d(), 0x3ffffffffffffffffffffffffffffffffffffffffffffffffffffffffffffff6nat) == fp::p() - 1,
{
    reveal(fp::d);
    lemma_d_small_power();
    lemma_d_root_power();
    let c = pow(fp::d(), 0x5f6e2nat);
    lemma_pow_multiplies(fp::d(), 0x5f6e2nat, 0xabaf8c6b094fd0f32c2ccabab864dbecd99144679c1adf804898fb2042bnat);
    lemma_pow_mod_noop(c, 0xabaf8c6b094fd0f32c2ccabab864dbecd99144679c1adf804898fb2042bnat, fp::p());
}

} // verus!
