//! The order of the base point, by a chain of doublings and additions.
use crate::curve;
use crate::curve::Point;
use crate::fp;
use crate::scalar;
use vstd::prelude::*;

verus! {

/// `[k]B` has the coordinates `x` and `y`.
#[verifier::opaque]
spec fn multiple(k: int, x: int, y: int) -> bool {
    curve::smul(k, curve::basepoint()) == (Point { x, y })
}

/// The base point has the coordinates `bx` and `by`, and `e` is `d` times both, reduced.
#[verifier::opaque]
spec fn base(bx: int, by: int, e: int) -> bool {
    &&& curve::basepoint() == (Point { x: bx, y: by })
    &&& (fp::d() * (bx * by) - e) % fp::p() == 0
}

/// From a multiple of the base point to twice that multiple. On the curve the denominators of
/// the sum are `u = y^2 - x^2` and `v = 2 - u`.
proof fn double_step(p: int, k: int, x: int, y: int, u: int, v: int, x2: int, y2: int) -> (r: int)
    requires
        p == fp::p(),
        multiple(k, x, y),
        (y * y - x * x - u) % p == 0,
        v == 2 - u,
        0 <= x2 < p,
        0 <= y2 < p,
        (x2 * u - x * y - y * x) % p == 0,
        (y2 * v - y * y - x * x) % p == 0,
    ensures
        r == 2 * k,
        multiple(r, x2, y2),
{
    reveal(multiple);
    let a = Point { x, y };
    let c = Point { x: x2, y: y2 };
    let b = curve::basepoint();
    curve::lemma_basepoint_on_curve();
    curve::lemma_smul_on_curve(k, b);
    let e = curve::cross(a, a);
    fp::lemma_cong_diff(y * y - x * x - 1, e);
    fp::lemma_cong_diff(y * y - x * x, u);
    fp::lemma_cong_sub(y * y - x * x, u, 1, 1);
    fp::lemma_cong_sub(1, 1, e, u - 1);
    fp::lemma_cong_mul(x2, x2, 1 + e, u);
    fp::lemma_cong_mul(y2, y2, 1 - e, v);
    fp::lemma_cong_diff(x2 * u, x * y + y * x);
    fp::lemma_cong_diff(y2 * v, y * y + x * x);
    curve::lemma_sum_unique(a, a, c);
    curve::lemma_smul_add(k, k, b);
    2 * k
}

/// From a multiple of the base point to the next multiple. With `m = x y` the
/// denominators of the sum are `u = 1 + e m` and `v = 2 - u`.
proof fn add_step(
    p: int,
    e: int,
    bx: int,
    by: int,
    k: int,
    x: int,
    y: int,
    m: int,
    u: int,
    v: int,
    x2: int,
    y2: int,
) -> (r: int)
    requires
        p == fp::p(),
        base(bx, by, e),
        multiple(k, x, y),
        (x * y - m) % p == 0,
        (e * m - u + 1) % p == 0,
        v == 2 - u,
        0 <= x2 < p,
        0 <= y2 < p,
        (x2 * u - x * by - y * bx) % p == 0,
        (y2 * v - y * by - x * bx) % p == 0,
    ensures
        r == k + 1,
        multiple(r, x2, y2),
{
    reveal(multiple);
    reveal(base);
    let a = Point { x, y };
    let c = Point { x: x2, y: y2 };
    let b = curve::basepoint();
    curve::lemma_basepoint_on_curve();
    curve::lemma_smul_on_curve(k, b);
    curve::lemma_smul_base(b);
    let d = fp::d();
    let q = curve::cross(a, b);
    assert(q == d * (bx * by) * (x * y)) by {
        assert(d * (x * bx * (y * by)) == d * (bx * by) * (x * y)) by (nonlinear_arith);
    }
    fp::lemma_cong_diff(d * (bx * by), e);
    fp::lemma_cong_diff(x * y, m);
    fp::lemma_cong_mul(d * (bx * by), e, x * y, m);
    fp::lemma_cong_diff(e * m, u - 1);
    fp::lemma_cong_sub(1, 1, q, u - 1);
    fp::lemma_cong_mul(x2, x2, 1 + q, u);
    fp::lemma_cong_mul(y2, y2, 1 - q, v);
    fp::lemma_cong_diff(x2 * u, x * by + y * bx);
    fp::lemma_cong_diff(y2 * v, y * by + x * bx);
    curve::lemma_sum_unique(a, b, c);
    curve::lemma_smul_add(k, 1, b);
    k + 1
}

proof fn lemma_base()
    ensures
        base(
            0x216936d3cd6e53fec0a4e231fdd6dc5c692cc7609525a7b2c9562d608f25d51aint,
            0x6666666666666666666666666666666666666666666666666666666666666658int,
            0x3788bdb44f8632d42d0dbee5eea1acc6136cf411e655624f55e48902c3bd5534int,
        ),
{
    reveal(base);
    reveal(fp::d);
    reveal(curve::basepoint);
}

proof fn lemma_chain_0()
    requires
        multiple(0x1int, 0x216936d3cd6e53fec0a4e231fdd6dc5c692cc7609525a7b2c9562d608f25d51aint, 0x6666666666666666666666666666666666666666666666666666666666666658int),
    ensures
        multiple(0x1000int, 0x7d13c0248b891b47eb524f2692008e2f97b199bac426cb5902b9003a29ded6eaint, 0x59a976ab2c01a81a91f1a56c75ccc77a9e1e9e878e9fe9c3952080a6805b20d5int),
{
    let p = 0x7fffffffffffffffffffffffffffffffffffffffffffffffffffffffffffffedint;
    let x0 = 0x216936d3cd6e53fec0a4e231fdd6dc5c692cc7609525a7b2c9562d608f25d51aint;
    let y0 = 0x6666666666666666666666666666666666666666666666666666666666666658int;
    let k0 = 0x1int;
    let x1 = 0x36ab384c9f5a046c3d043b7d1833e7ac080d8e4515d7a45f83c5a14e2843ce0eint;
    let y1 = 0x2260cdf3092329c21da25ee8c9a21f5697390f51643851560e5f46ae6af8a3c9int;
    let u1 = 0x1805ddb3491df0a9558e2ebbaa02855effa18262f5201aa14f4661759bd03579int;
    let v1 = -0x1805ddb3491df0a9558e2ebbaa02855effa18262f5201aa14f4661759bd03577int;
    let k1 = double_step(p, k0, x0, y0, u1, v1, x1, y1);
    let x2 = 0x203da8db56cff1468325d4b87a3520f91a739ec193ce1547493aa657c4c9f870int;
    let y2 = 0x47d0e827cb1595e1470eb88580d5716c4cf22832ea2f0ff0df38ab61ca32112fint;
    let u2 = 0x5a0910692d058f75a098c2e578741a5b1ac29047aece07b02ec2f67d0cac588aint;
    let v2 = -0x5a0910692d058f75a098c2e578741a5b1ac29047aece07b02ec2f67d0cac5888int;
    let k2 = double_step(p, k1, x1, y1, u2, v2, x2, y2);
    let x3 = 0x6742e15f97d771b642862d5cf84ecf93eb3ac67b80698b993b87fdbc08a584c8int;
    let y3 = 0x21d30600c9e573796ead6f09668af38f81783cfc621ee4931e2f5ba9fc37b9b4int;
    let u3 = 0x15dd25295a5a033c7b5c7182c9c981756e03bff28654a4cb52353b08c425a24dint;
    let v3 = -0x15dd25295a5a033c7b5c7182c9c981756e03bff28654a4cb52353b08c425a24bint;
    let k3 = double_step(p, k2, x2, y2, u3, v3, x3, y3);
    let x4 = 0x23a4860627e53aeeb8e22b1508249c9109578d33e7bf237459b2596d6c28f9f8int;
    let y4 = 0x709696f2827fc3729f980f2e3aad6e78b06a11ff8e079c27d87aab37c16727ebint;
    let u4 = 0x634e966576fc72cb27aa80009cd0a162ff5ea080df782e9421d124e22add6278int;
    let v4 = -0x634e966576fc72cb27aa80009cd0a162ff5ea080df782e9421d124e22add6276int;
    let k4 = double_step(p, k3, x3, y3, u4, v4, x4, y4);
    let x5 = 0x39cf6c6917421af98582561d0b39567de6033190f97852fc4fdd40f6977e4f26int;
    let y5 = 0x4434a90ee12cce6b7ade93ecc0f88b78b41205e74c8c4038f92d394f3a06d269int;
    let u5 = 0x7103b43c793be71adc347ea5c94de0b2c4b8475e4059e6517b6fe5517424b7d7int;
    let v5 = -0x7103b43c793be71adc347ea5c94de0b2c4b8475e4059e6517b6fe5517424b7d5int;
    let k5 = double_step(p, k4, x4, y4, u5, v5, x5, y5);
    let x6 = 0x5fa64200bf829139cf290f9871d79a8b8e846fd6ad9d678f1517a0fb03ca40bint;
    let y6 = 0x3d199eeaf926002872f486796fa8aa4c99f1125e6e0d196afbd695af17da0926int;
    let u6 = 0x495c07af6cd689dc439f291351432ae718e27c357b8e6b8b31cab68f1876039aint;
    let v6 = -0x495c07af6cd689dc439f291351432ae718e27c357b8e6b8b31cab68f18760398int;
    let k6 = double_step(p, k5, x5, y5, u6, v6, x6, y6);
    let x7 = 0x379dbeb1a97b5f082402eabf1ad28bb78a837aa426237a405da2495bf0cfdd87int;
    let y7 = 0x28eb9fe001ce99d063f7995348559bfc233261c134094521fda0e7ee084b86fcint;
    let u7 = 0x774faff57efcdba630c63d79293c2a82d8089d4b03d6641596dc7f827abd4124int;
    let v7 = -0x774faff57efcdba630c63d79293c2a82d8089d4b03d6641596dc7f827abd4122int;
    let k7 = double_step(p, k6, x6, y6, u7, v7, x7, y7);
    let x8 = 0x5e7e07ed4e1decbfe6e9cbc126905449d4b578fbb561576d20b8bcdd0cc2a556int;
    let y8 = 0xf55755c51f102796bf5ebaa81d3260e7d1b3d9ac127d9a80e142031566cf6c7int;
    let u8 = 0x3a7b141d9a50b1f52e9621866a4945e7fc35ca44c54ce0619d5cc4917e9eb00bint;
    let v8 = -0x3a7b141d9a50b1f52e9621866a4945e7fc35ca44c54ce0619d5cc4917e9eb009int;
    let k8 = double_step(p, k7, x7, y7, u8, v8, x8, y8);
    let x9 = 0x2eecbf81b3d084733331f9eefa70d42621effd9b303961d25409333c82cd340aint;
    let y9 = 0x54d2dc2da137827c4132d9b740a119b6484d4d4849e6e074b89cf764008b93e8int;
    let u9 = 0x3789a4e2e5e7b8ad001cf83d8e9bb5a2dcf040d3b3a31c6a55ee85a02d141f0int;
    let v9 = -0x3789a4e2e5e7b8ad001cf83d8e9bb5a2dcf040d3b3a31c6a55ee85a02d141eeint;
    let k9 = double_step(p, k8, x8, y8, u9, v9, x9, y9);
    let x10 = 0x6b113a52f9f3fd0590ac7cb6c8cbb37abcf147c44b2ae11d9151c7d55b4a2b68int;
    let y10 = 0x1aeb017159697e792eb8da1805519c06296595f4f57996c590954359f327c13dint;
    let u10 = 0x74e52382f3976b584765f048321257a868f753d8027400d6db9586a189c1590int;
    let v10 = -0x74e52382f3976b584765f048321257a868f753d8027400d6db9586a189c158eint;
    let k10 = double_step(p, k9, x9, y9, u10, v10, x10, y10);
    let x11 = 0x3c1ae7527612d38bb541f511fcc6283d8482afe93115b345ecd2bcfbbd1317f7int;
    let y11 = 0x51c91c3f9d7e57eb786116c8545f90fa67f5e8b62c32ac4512015a20711364eint;
    let u11 = 0x1a8e16642aac83fe73925dedc1e8b77fc96b31e7df0cbccf65e6e036bfe7d863int;
    let v11 = -0x1a8e16642aac83fe73925dedc1e8b77fc96b31e7df0cbccf65e6e036bfe7d861int;
    let k11 = double_step(p, k10, x10, y10, u11, v11, x11, y11);
    let x12 = 0x7d13c0248b891b47eb524f2692008e2f97b199bac426cb5902b9003a29ded6eaint;
    let y12 = 0x59a976ab2c01a81a91f1a56c75ccc77a9e1e9e878e9fe9c3952080a6805b20d5int;
    let u12 = 0x3805b433ce8ffe6799df800b94d084fb363eda8cf759d3dfdde794fe0832e9c1int;
    let v12 = -0x3805b433ce8ffe6799df800b94d084fb363eda8cf759d3dfdde794fe0832e9bfint;
    let k12 = double_step(p, k11, x11, y11, u12, v12, x12, y12);
}

proof fn lemma_chain_1()
    requires
        multiple(0x1000int, 0x7d13c0248b891b47eb524f2692008e2f97b199bac426cb5902b9003a29ded6eaint, 0x59a976ab2c01a81a91f1a56c75ccc77a9e1e9e878e9fe9c3952080a6805b20d5int),
    ensures
        multiple(0x1000000int, 0xaf367956af630266b1cc760154256ed79da960dddca9d72a1e8cf27d8d43a77int, 0x21108d900134d3b3708dd28ace96b0b23dda9100e4b6a62a8131bd2f2ba408c5int),
{
    let p = 0x7fffffffffffffffffffffffffffffffffffffffffffffffffffffffffffffedint;
    let x0 = 0x7d13c0248b891b47eb524f2692008e2f97b199bac426cb5902b9003a29ded6eaint;
    let y0 = 0x59a976ab2c01a81a91f1a56c75ccc77a9e1e9e878e9fe9c3952080a6805b20d5int;
    let k0 = 0x1000int;
    let x1 = 0x17d5a9ff7f338d8ee53c26531f9a5d4ad2718234b5d46a1435aa161031b1c9deint;
    let y1 = 0x73022287d3b73f6c43c3f9071cf0a87aac83dabd44efad1de010d564a4f6af89int;
    let u1 = 0x47d21d62a2827910f8ba039f1ac3b03e7e6775543fded9a885e4c2ecb4772e92int;
    let v1 = -0x47d21d62a2827910f8ba039f1ac3b03e7e6775543fded9a885e4c2ecb4772e90int;
    let k1 = double_step(p, k0, x0, y0, u1, v1, x1, y1);
    let x2 = 0x7a8bc68bf5f3ed3bed79c11bf2d6b20cb84442dfe4ae185b0c2dabc38e74b8aint;
    let y2 = 0x7249d7c47afd427018b32d20a2a81307bddc3e039574c80329aa786a22288901int;
    let u2 = 0x6ca7a5f1a91b65a137c66f92a24be3cc215cb0e9815bb36adfab2b02481702int;
    let v2 = -0x6ca7a5f1a91b65a137c66f92a24be3cc215cb0e9815bb36adfab2b02481700int;
    let k2 = double_step(p, k1, x1, y1, u2, v2, x2, y2);
    let x3 = 0x5b4fd9f4a9a79b1f34a4c426c1a467d36560338b1a5457e83254935c2b32ff02int;
    let y3 = 0x40ebd1230468fbf85a49aa47278ec1375a3cf9c2ecc5bbdf685b265433b08d46int;
    let u3 = 0x2d332206d855ad1b37eff26cbbfa72fd1e75b8f7f03f65c5eb8e003ff9ec8d9bint;
    let v3 = -0x2d332206d855ad1b37eff26cbbfa72fd1e75b8f7f03f65c5eb8e003ff9ec8d99int;
    let k3 = double_step(p, k2, x2, y2, u3, v3, x3, y3);
    let x4 = 0x5de7faa2ee4e70132f541f79ca07cd54a39fe1347a6844d19e9d678a8411a565int;
    let y4 = 0x2c9f23641e1c2e0aab8ea9926b432d92c0e8bc08901d6ff6df85e4cef854ec36int;
    let u4 = 0x5816a1c4eae3c5bf632a8153839d4971b347536bb79988df158003fe619d214int;
    let v4 = -0x5816a1c4eae3c5bf632a8153839d4971b347536bb79988df158003fe619d212int;
    let k4 = double_step(p, k3, x3, y3, u4, v4, x4, y4);
    let x5 = 0x74e337a01c13b537323663602811d1d532d8747e81489415271411b172d04f27int;
    let y5 = 0x8648f02b3a4daf96ecffabdbaf3599fb2ee85dae253b2c21ce66796114e25f1int;
    let u5 = 0x2fb0f17d8a0e2f682327cd953acfced9899baf5c0f014b764a95ec1275678261int;
    let v5 = -0x2fb0f17d8a0e2f682327cd953acfced9899baf5c0f014b764a95ec127567825fint;
    let k5 = double_step(p, k4, x4, y4, u5, v5, x5, y5);
    let x6 = 0x6a6fbd51efa6a855e82cb0142325ba473fd7554aba208a400737475464f29434int;
    let y6 = 0x16f5f8529f55fc2b7cf811161d7870ade1d1617e52c3c4f579ea06b27616d671int;
    let u6 = 0x2e305dcfa85cab925b25a251b1c51cbcfe6b3bb3a87812273188c0f71560b291int;
    let v6 = -0x2e305dcfa85cab925b25a251b1c51cbcfe6b3bb3a87812273188c0f71560b28fint;
    let k6 = double_step(p, k5, x5, y5, u6, v6, x6, y6);
    let x7 = 0x243eb188de73a5549b32c39d2ef1b29623709a9ead4c0e240314e0c5f69a9634int;
    let y7 = 0x3779298951f452d801eb7a0b7eb224cca2dbef041081cfa582afb25b1f4ce2f6int;
    let u7 = 0x3e7ae8e5b49519876e6af425af9daae28bbb55c8b2114e9671c71de879bed67dint;
    let v7 = -0x3e7ae8e5b49519876e6af425af9daae28bbb55c8b2114e9671c71de879bed67bint;
    let k7 = double_step(p, k6, x6, y6, u7, v7, x7, y7);
    let x8 = 0x6b349eebfed4dad4a805b63a6ed2231a565cda752d9477ff427dd9a8c9ab5edint;
    let y8 = 0x7a09289ff3e1f9aab68aa374c48df65f550c2323607b97744dee990608b64f8int;
    let u8 = 0x4916bb59548a5ba27f049118237979fde7dd8ea66328bfe6ff18e5936e4fd3fbint;
    let v8 = -0x4916bb59548a5ba27f049118237979fde7dd8ea66328bfe6ff18e5936e4fd3f9int;
    let k8 = double_step(p, k7, x7, y7, u8, v8, x8, y8);
    let x9 = 0x482a4cdf57d9eadaab1c92b8edd4d15f66a39c16b2ebaaf9ec314ac0199c4f7dint;
    let y9 = 0x7391de4381c2f7a80b3c5fc6145192983f115fa525e4fd6abd513b116e4eb04bint;
    let u9 = 0x47a7e9cfeec4ed2695f17e5d256eeaebb73ebde03ac3279fd8a8018a53958166int;
    let v9 = -0x47a7e9cfeec4ed2695f17e5d256eeaebb73ebde03ac3279fd8a8018a53958164int;
    let k9 = double_step(p, k8, x8, y8, u9, v9, x9, y9);
    let x10 = 0x3bad86defe0d244dcc4b246c137dcc68bf6b733d1fff688f33431f2a339f8f3cint;
    let y10 = 0x2de3cdf2fa86ba8c2b899f9fc04b8d5384145c3f68ea9b6ee05373dc01815179int;
    let u10 = 0x2b67c7b7c03294ee4a3fcbfca0bd16c0d21f4ac4aadd89eae21271a95d97be78int;
    let v10 = -0x2b67c7b7c03294ee4a3fcbfca0bd16c0d21f4ac4aadd89eae21271a95d97be76int;
    let k10 = double_step(p, k9, x9, y9, u10, v10, x10, y10);
    let x11 = 0x45afc85dc571ed1bd5e8115a9622d44627cf19fc4a8626e7b754b005cb75be54int;
    let y11 = 0x6c0c8abfa60bfc771e39a18f57b8142f7adbcf220b81ee2339809e4957777b40int;
    let u11 = 0x67b8f5ed3bbad783561d1ed6b65b614811270dc000f8387a91a7872d4ab00212int;
    let v11 = -0x67b8f5ed3bbad783561d1ed6b65b614811270dc000f8387a91a7872d4ab00210int;
    let k11 = double_step(p, k10, x10, y10, u11, v11, x11, y11);
    let x12 = 0xaf367956af630266b1cc760154256ed79da960dddca9d72a1e8cf27d8d43a77int;
    let y12 = 0x21108d900134d3b3708dd28ace96b0b23dda9100e4b6a62a8131bd2f2ba408c5int;
    let u12 = 0x21a79c77bc651602a576fa67ba51eedd57b1f4166d8f347463e80ef61d0c6a7dint;
    let v12 = -0x21a79c77bc651602a576fa67ba51eedd57b1f4166d8f347463e80ef61d0c6a7bint;
    let k12 = double_step(p, k11, x11, y11, u12, v12, x12, y12);
}

proof fn lemma_chain_2()
    requires
        multiple(0x1000000int, 0xaf367956af630266b1cc760154256ed79da960dddca9d72a1e8cf27d8d43a77int, 0x21108d900134d3b3708dd28ace96b0b23dda9100e4b6a62a8131bd2f2ba408c5int),
    ensures
        multiple(0x1000000000int, 0x2b6b892ae94b454b2c2d92bb947fc4d506d173d281779c2c153c001ded42d3d0int, 0x7f1cf64e0e180fc4d6e12c1b5c5285f376e979616a52c94a0dea4d48c5880cd2int),
{
    let p = 0x7fffffffffffffffffffffffffffffffffffffffffffffffffffffffffffffedint;
    let x0 = 0xaf367956af630266b1cc760154256ed79da960dddca9d72a1e8cf27d8d43a77int;
    let y0 = 0x21108d900134d3b3708dd28ace96b0b23dda9100e4b6a62a8131bd2f2ba408c5int;
    let k0 = 0x1000000int;
    let x1 = 0x2b760154fc5ceb5a64141345f55b1b57e5b0b1d6c5a07dea8ddf074fbae70d33int;
    let y1 = 0x7dc81af96fed42e0373411203fa2ced7629fb2eb6a2054e24afe3696afc20c02int;
    let u1 = 0x21d4d9bee7fbd9cafec53b8f37762008a920aace626bea36f31362fc650ce01dint;
    let v1 = -0x21d4d9bee7fbd9cafec53b8f37762008a920aace626bea36f31362fc650ce01bint;
    let k1 = double_step(p, k0, x0, y0, u1, v1, x1, y1);
    let x2 = 0x67dbc33418bbcd3878489398639484b6d6fa42f875b8c5af23bc92c69c5bdb6bint;
    let y2 = 0x38436fdf8589a33059fc92e7ca7aa2250cc9ea48391b1e517c6fb056093af396int;
    let u2 = 0x29d21bc29f5ad2f0d2ca37bf633203a16aaacef26758594e50a2a493365ac550int;
    let v2 = -0x29d21bc29f5ad2f0d2ca37bf633203a16aaacef26758594e50a2a493365ac54eint;
    let k2 = double_step(p, k1, x1, y1, u2, v2, x2, y2);
    let x3 = 0x29ea44a50a4b47b8b3dffa01dc5f2271d5439ba8a82a6ec0c454e9bd19448479int;
    let y3 = 0x6c775ac8ab2eda8cbbdb4bd1196ab24630ac6c1f97389de19e9d5f63af509005int;
    let u3 = 0x10569d90e4054c94d1f7e4eb681f8a9ce82f5e97785734accec7850d6066f97dint;
    let v3 = -0x10569d90e4054c94d1f7e4eb681f8a9ce82f5e97785734accec7850d6066f97bint;
    let k3 = double_step(p, k2, x2, y2, u3, v3, x3, y3);
    let x4 = 0x1e45a60140a3b2dee9b8dc6ff307154a1b410bcd38e0e38fb10b2f6da1afbe2bint;
    let y4 = 0xe730da473dffd60d2f3241a85e68acb47d26e5043ad047d893f072c8dda0a76int;
    let u4 = 0x69f3019f802f7b1f88910506370553eb2497bb3e1459f4bcbc52a433c1ca3c6cint;
    let v4 = -0x69f3019f802f7b1f88910506370553eb2497bb3e1459f4bcbc52a433c1ca3c6aint;
    let k4 = double_step(p, k3, x3, y3, u4, v4, x4, y4);
    let x5 = 0x61708161cb4660ff22c3c1eaafb1414244579864b07e73fb9bcd90aabec9935dint;
    let y5 = 0x38d6936d12e8157c0621bd2d8fdf95a1f84987ee724e0c98f5c4cd21feb9820dint;
    let u5 = 0x5f93d1ff70af2d16d8aa73d61e2c246fb69cca57268fd093244877ef46d73ec5int;
    let v5 = -0x5f93d1ff70af2d16d8aa73d61e2c246fb69cca57268fd093244877ef46d73ec3int;
    let k5 = double_step(p, k4, x4, y4, u5, v5, x5, y5);
    let x6 = 0x48f451397792915909604c632c838021641749a67fb8e91301427defd951f791int;
    let y6 = 0x315385d3bd5a22b69068de89e52a3126525be7da886d693e99ff2f088322d560int;
    let u6 = 0x23f29196df444cd6919c788c912fd54cef2489d913c987b9fc4e7afabb0f5713int;
    let v6 = -0x23f29196df444cd6919c788c912fd54cef2489d913c987b9fc4e7afabb0f5711int;
    let k6 = double_step(p, k5, x5, y5, u6, v6, x6, y6);
    let x7 = 0x7956a04df862178ee4c705ffbd30f9dcbccdfc7abe362f2c1da24b3cf9dcced8int;
    let y7 = 0x5eeac17f2e772f551e761978b395b6ddea37a16aa33cff34a30a8453baf6e782int;
    let u7 = 0x2699569c471c52a25dd6a1342929bdbed22f59370fc774162e528015f8c8264bint;
    let v7 = -0x2699569c471c52a25dd6a1342929bdbed22f59370fc774162e528015f8c82649int;
    let k7 = double_step(p, k6, x6, y6, u7, v7, x7, y7);
    let x8 = 0x4d1e116d136158c5ddabd4276832800f2c081c1072de6f2d931797a46abc0cbbint;
    let y8 = 0x6d415be49d4e35b65cc51354b5008f8c43e84b7b5e8a4b84f44e1efb10c9b91aint;
    let u8 = 0x68d97bd81c290edcbaff9bfbc5bbd50d3a6abdba3e997eadd1b831f2b680f5eeint;
    let v8 = -0x68d97bd81c290edcbaff9bfbc5bbd50d3a6abdba3e997eadd1b831f2b680f5ecint;
    let k8 = double_step(p, k7, x7, y7, u8, v8, x8, y8);
    let x9 = 0x4b5bae5a77a867ddbee3944524f8e2ec8c2a6172c14bd432cd42148248127d15int;
    let y9 = 0x739476e0b38471219875a4580e6742ecb6aecba57b8c0fa0d923b8de209a77cbint;
    let u9 = 0x2136a22d9f8856c847913d543ee41019a543f5a28100580feb750a0ee0bf9078int;
    let v9 = -0x2136a22d9f8856c847913d543ee41019a543f5a28100580feb750a0ee0bf9076int;
    let k9 = double_step(p, k8, x8, y8, u9, v9, x9, y9);
    let x10 = 0x33bfa90cc1b9df13e106ffcf6ca898d06b22d51df337243bf85b3f232869fcdfint;
    let y10 = 0x53b120db6327cae59fa5fff109017d2df4acef01d2f10981439d824fb2da81d9int;
    let u10 = 0x52d76c2a68989d071f3cbb2e51e1b972593a44887e987214ffc04a849434e9edint;
    let v10 = -0x52d76c2a68989d071f3cbb2e51e1b972593a44887e987214ffc04a849434e9ebint;
    let k10 = double_step(p, k9, x9, y9, u10, v10, x10, y10);
    let x11 = 0x444929347c2ded029bc19558b0f69a4492017a9c35b370711e08222bc0b9efc6int;
    let y11 = 0x77785ec5cbbdabd645a3251e7da57c8ffc39158c0d7b25a4211c2aff2e1d6245int;
    let u11 = 0x5b4c4cf8636e16e6e19917d537173c8671c90dc42800b33b15286f6c3581b844int;
    let v11 = -0x5b4c4cf8636e16e6e19917d537173c8671c90dc42800b33b15286f6c3581b842int;
    let k11 = double_step(p, k10, x10, y10, u11, v11, x11, y11);
    let x12 = 0x2b6b892ae94b454b2c2d92bb947fc4d506d173d281779c2c153c001ded42d3d0int;
    let y12 = 0x7f1cf64e0e180fc4d6e12c1b5c5285f376e979616a52c94a0dea4d48c5880cd2int;
    let u12 = 0x34f29487e347e38d55935ca99e831ed054683a61ebcbe6e2baae394c6da8ae01int;
    let v12 = -0x34f29487e347e38d55935ca99e831ed054683a61ebcbe6e2baae394c6da8adffint;
    let k12 = double_step(p, k11, x11, y11, u12, v12, x12, y12);
}

proof fn lemma_chain_3()
    requires
        multiple(0x1000000000int, 0x2b6b892ae94b454b2c2d92bb947fc4d506d173d281779c2c153c001ded42d3d0int, 0x7f1cf64e0e180fc4d6e12c1b5c5285f376e979616a52c94a0dea4d48c5880cd2int),
    ensures
        multiple(0x1000000000000int, 0x52a837bc7a7bc9459bcc2ecf80f74d9ed99def0342e18cfbe8e799fbc504fd52int, 0x50d6460185d8924e5485f23f36a98c86053514d163547adab6fe91478a411196int),
{
    let p = 0x7fffffffffffffffffffffffffffffffffffffffffffffffffffffffffffffedint;
    let x0 = 0x2b6b892ae94b454b2c2d92bb947fc4d506d173d281779c2c153c001ded42d3d0int;
    let y0 = 0x7f1cf64e0e180fc4d6e12c1b5c5285f376e979616a52c94a0dea4d48c5880cd2int;
    let k0 = 0x1000000000int;
    let x1 = 0x1b9175b7fc19a618d5848c5761c2b760529e3eaaac087b51112b1fcb422e04b4int;
    let y1 = 0x1730a59fff4717e258cc853dece7c5f70ecb52cc35320a53cc3838c844ca68e8int;
    let u1 = 0x312ec58e1f87909e23edffced3bcb692d2bc717ce986e4694cfd670facab1ad5int;
    let v1 = -0x312ec58e1f87909e23edffced3bcb692d2bc717ce986e4694cfd670facab1ad3int;
    let k1 = double_step(p, k0, x0, y0, u1, v1, x1, y1);
    let x2 = 0x1371cf67fe47f8ef91246ae0485874d601e31984d854224569ac29e56a6ee87int;
    let y2 = 0x71cad7d8350661ce798e332a98ee5b62f8431fd9ac5a4a48856ce9c4c5b64c73int;
    let u2 = 0x57f36cde8a959be609e787a292b3b149048c3042c7869235ae99b946cebd5175int;
    let v2 = -0x57f36cde8a959be609e787a292b3b149048c3042c7869235ae99b946cebd5173int;
    let k2 = double_step(p, k1, x1, y1, u2, v2, x2, y2);
    let x3 = 0x63bd671eca1e6accd0f980845b163ca4e927d2a74d198e78cccd8fcaa6aed372int;
    let y3 = 0x460cc32f5d27a15f4294faa20a99112392cdbdc8515e9caa1ff4887d22a6e7bint;
    let u3 = 0x52f6263410b7dc25104737da907d8f28d9a934e61d03ca67cfe72655b790f25dint;
    let v3 = -0x52f6263410b7dc25104737da907d8f28d9a934e61d03ca67cfe72655b790f25bint;
    let k3 = double_step(p, k2, x2, y2, u3, v3, x3, y3);
    let x4 = 0xf6c3a96e0032a9394337a02ffb2c83ba70efb8f566feab530fc90fa3b4710e5int;
    let y4 = 0x3d4e97e286378675038a4b58e84224ee515e1d6697ac79389f78479be167635aint;
    let u4 = 0x1de1d239e5492c8c9dee1447366ae8521a8b2af039a16f63de7e07d5e5c4de2fint;
    let v4 = -0x1de1d239e5492c8c9dee1447366ae8521a8b2af039a16f63de7e07d5e5c4de2dint;
    let k4 = double_step(p, k3, x3, y3, u4, v4, x4, y4);
    let x5 = 0x3b13c71c2a90bd24c51df6bd138c5d16208a9ceaaa8eb34a69469fade6abb440int;
    let y5 = 0x14890a7ab24817b2bba826792e8fd342a6f705af800252616435be180d16dc54int;
    let u5 = 0x6e3040f3f04a4f74c0884554edaa8cd6cd43323d5c50ae31c55401c3451b5becint;
    let v5 = -0x6e3040f3f04a4f74c0884554edaa8cd6cd43323d5c50ae31c55401c3451b5beaint;
    let k5 = double_step(p, k4, x4, y4, u5, v5, x5, y5);
    let x6 = 0x184b48cb455000542259174da9a6eb83a928b2835182278abb6ec091e388a820int;
    let y6 = 0x3ee0e07a03dc33a9dd60c2682380ef736679a5e383faf453fe324dba26e77c33int;
    let u6 = 0x4a459bec9d73405c0e4b9731d4f54c033b00372b41306f4414ff81036a038279int;
    let v6 = -0x4a459bec9d73405c0e4b9731d4f54c033b00372b41306f4414ff81036a038277int;
    let k6 = double_step(p, k5, x5, y5, u6, v6, x6, y6);
    let x7 = 0x5a04ae1195edf508262196e9d23c259c937f81769b2258542b78e3c0fb135c34int;
    let y7 = 0x676667092118acccece87e75f0a6825c5952f92dd499943efe831f9712c5e8b9int;
    let u7 = 0x7332fbe9de753f189c0f4202ebc3d8a2dedf9634ec4cfb4db1babeab23bdf748int;
    let v7 = -0x7332fbe9de753f189c0f4202ebc3d8a2dedf9634ec4cfb4db1babeab23bdf746int;
    let k7 = double_step(p, k6, x6, y6, u7, v7, x7, y7);
    let x8 = 0x52ee53b981dfbc41ddaa5ddc2754c4175f4811aa45f8e2b19a425657c238a83eint;
    let y8 = 0x7eb0a1be3400dec87b388cad51613957643cdf0595b891cc6f925fb36da7f1c3int;
    let u8 = 0x6fead3124cf7b15cb11ba8b924dfe4bdb5b92a48dfae1d44c991f00afad84aa4int;
    let v8 = -0x6fead3124cf7b15cb11ba8b924dfe4bdb5b92a48dfae1d44c991f00afad84aa2int;
    let k8 = double_step(p, k7, x7, y7, u8, v8, x8, y8);
    let x9 = 0x501fe138924e05cc1a05129d241e6b5e9d46cd8b0bed38eb42ee20678a1d2425int;
    let y9 = 0x2f8022ecede0189c215882ca856dae0f7b4daf6675181a558ebd11e6911cee4eint;
    let u9 = 0x2a35cbfc003c8394ddb02f55197d8c25df6f2899fc200d4fbba65aec1c931000int;
    let v9 = -0x2a35cbfc003c8394ddb02f55197d8c25df6f2899fc200d4fbba65aec1c930ffeint;
    let k9 = double_step(p, k8, x8, y8, u9, v9, x9, y9);
    let x10 = 0x2d8294fd94996032b73b4f09a0ff645ce8db39db5463f0fc57156a1d390a3b68int;
    let y10 = 0x3a8a6faa67c6dd905a4fdeb95ac127c9fde3ac017c847ceadb2c55f1445af624int;
    let u10 = 0x4403917e8b25abb9ef88b9de02835e2402aa3aeaa129a1897647ee6d260dc4ffint;
    let v10 = -0x4403917e8b25abb9ef88b9de02835e2402aa3aeaa129a1897647ee6d260dc4fdint;
    let k10 = double_step(p, k9, x9, y9, u10, v10, x10, y10);
    let x11 = 0x56857d02674276af0099d63b04a39544a23b841cb2ef18688ba9500361e4da1dint;
    let y11 = 0xb543a6720e318d2647915bcd619efcdedcf7fed0657be45d27db284290e72ceint;
    let u11 = 0x3a8fc16d5029d55ff854deba6bb4a3dff02a051dcf2ea31525f6d012cd52055cint;
    let v11 = -0x3a8fc16d5029d55ff854deba6bb4a3dff02a051dcf2ea31525f6d012cd52055aint;
    let k11 = double_step(p, k10, x10, y10, u11, v11, x11, y11);
    let x12 = 0x52a837bc7a7bc9459bcc2ecf80f74d9ed99def0342e18cfbe8e799fbc504fd52int;
    let y12 = 0x50d6460185d8924e5485f23f36a98c86053514d163547adab6fe91478a411196int;
    let u12 = 0x6bc1b624c2c880939c70c82470418c17e645473ecbaf7e37b5eb20dedbe2e268int;
    let v12 = -0x6bc1b624c2c880939c70c82470418c17e645473ecbaf7e37b5eb20dedbe2e266int;
    let k12 = double_step(p, k11, x11, y11, u12, v12, x12, y12);
}

proof fn lemma_chain_4()
    requires
        multiple(0x1000000000000int, 0x52a837bc7a7bc9459bcc2ecf80f74d9ed99def0342e18cfbe8e799fbc504fd52int, 0x50d6460185d8924e5485f23f36a98c86053514d163547adab6fe91478a411196int),
    ensures
        multiple(0x1000000000000000int, 0x57426aefc21be9ccf162e23d25ac3002ba8534351e65613f870f690f2fd46cf5int, 0x6b45b002fb4e8a6f59a6ffb006ed71f75434217333b266325204c7d1ac2e1f34int),
{
    let p = 0x7fffffffffffffffffffffffffffffffffffffffffffffffffffffffffffffedint;
    let x0 = 0x52a837bc7a7bc9459bcc2ecf80f74d9ed99def0342e18cfbe8e799fbc504fd52int;
    let y0 = 0x50d6460185d8924e5485f23f36a98c86053514d163547adab6fe91478a411196int;
    let k0 = 0x1000000000000int;
    let x1 = 0x3f30ee695b236bc74620afb10469324b45c8201a45cbd6954239e64086f3cd53int;
    let y1 = 0x414231531dd52e5555640faeae608c4a0c205a04f56d187ba80855dbc0478370int;
    let u1 = 0x25f49e280702d9e1e8f40443f6ac4c4f66f2c95393eb5f044a3875b7035311f7int;
    let v1 = -0x25f49e280702d9e1e8f40443f6ac4c4f66f2c95393eb5f044a3875b7035311f5int;
    let k1 = double_step(p, k0, x0, y0, u1, v1, x1, y1);
    let x2 = 0xebc38c54fd6aa12dcc60ca5c72ed865b7c35a6bfcf98778c235307d306de6e4int;
    let y2 = 0x4b3a1d9f2ef40fdb3e31ddd56a08526dbda15a4f58d78162c7bf23886763ce2int;
    let u2 = 0x13a0ece9b06d37c5263d92b523c9a486355e47058d8826c146942def8d453616int;
    let v2 = -0x13a0ece9b06d37c5263d92b523c9a486355e47058d8826c146942def8d453614int;
    let k2 = double_step(p, k1, x1, y1, u2, v2, x2, y2);
    let x3 = 0x3b75696730dc8d8cfb7ddb23241cc7ce78a13e6a377db5da527a1058e60e49dbint;
    let y3 = 0x34d031744cd2d9cfef9f9ea654000016fb3e8b4a8c44198760f46016166deaa9int;
    let u3 = 0x2a6579405e7f4930c7fe642a4020575da2e664b1d58c167316ffa3f1e5065488int;
    let v3 = -0x2a6579405e7f4930c7fe642a4020575da2e664b1d58c167316ffa3f1e5065486int;
    let k3 = double_step(p, k2, x2, y2, u3, v3, x3, y3);
    let x4 = 0x6b2bd5d00fab38ceca21a27d6aaec82626b14b555d859527718f8ca404eba4int;
    let y4 = 0x727340c27a15f6ab3d80547f0827c56ab1ba33bc30d1ef3909ea9a3af10c67e5int;
    let u4 = 0x61dca8873fc5a0ff6a50474bc7cd3a7097192c47678237e934acdb37ae706a16int;
    let v4 = -0x61dca8873fc5a0ff6a50474bc7cd3a7097192c47678237e934acdb37ae706a14int;
    let k4 = double_step(p, k3, x3, y3, u4, v4, x4, y4);
    let x5 = 0x1f4e8938dcf3a6d5907d88572bfb36a8191aa9d05bae8f68d3f120ea165b2bd8int;
    let y5 = 0x5a8b0c6f649f8e191aeeca653774a6ddfc8cf8ae3d4d232e2148433b9bda19ccint;
    let u5 = 0x633dac658ecdde4859ac82b14b6ad1ae1cd4742219949c4fd5452498c967c05cint;
    let v5 = -0x633dac658ecdde4859ac82b14b6ad1ae1cd4742219949c4fd5452498c967c05aint;
    let k5 = double_step(p, k4, x4, y4, u5, v5, x5, y5);
    let x6 = 0x8fe8df51b345989553484e20f600c2e46f4ed256f3c8dcc1615b872f0c2b925int;
    let y6 = 0x2738e06810f4cec5d894c91432edeab5ba632e54d06f494b751bba44bc93abf8int;
    let u6 = 0x5fb768dad06c3f5cd873deb5c0dee2a78f1b643988e2db376eea381b90488f40int;
    let v6 = -0x5fb768dad06c3f5cd873deb5c0dee2a78f1b643988e2db376eea381b90488f3eint;
    let k6 = double_step(p, k5, x5, y5, u6, v6, x6, y6);
    let x7 = 0x1a2403cc5ef2ad62b4f09afac79a48a5ba8ef74f3321b65a716164d49b141c74int;
    let y7 = 0x7779fbcd8be50c9b021180ac97a544ad0c21cd1f3bd263ce5903b9afe4fd76f5int;
    let u7 = 0x5279e849e42163dd1e1f33453fd49cfd30cdf504cbee4e361f6f255da1f8b74aint;
    let v7 = -0x5279e849e42163dd1e1f33453fd49cfd30cdf504cbee4e361f6f255da1f8b748int;
    let k7 = double_step(p, k6, x6, y6, u7, v7, x7, y7);
    let x8 = 0x71dd75fe35761c01a48597ec730bc33237902fd4ad8612cbed1031eebdf40de4int;
    let y8 = 0x39674a4532078e34378667beae5cb55f814ead9bbaf7e01b3b69533e9f88a411int;
    let u8 = 0x127cc8ad810ed12d28db5fdc734b76d4a0d87f1ca89263526bb28c18ce5f5911int;
    let v8 = -0x127cc8ad810ed12d28db5fdc734b76d4a0d87f1ca89263526bb28c18ce5f590fint;
    let k8 = double_step(p, k7, x7, y7, u8, v8, x8, y8);
    let x9 = 0x300d6b0bd6734e6170b814d2f28c82de4a2debb1c5589bc8b2671e0320587090int;
    let y9 = 0x40ca073d0343190c7f042b83c7bcabd3fa997de98f4bf0e2bdc4a7bf5c55fc81int;
    let u9 = 0x2a6662b92b3dc2b058376bd9f0d5bfeaa475be2724b65259ba401176e276cd11int;
    let v9 = -0x2a6662b92b3dc2b058376bd9f0d5bfeaa475be2724b65259ba401176e276cd0fint;
    let k9 = double_step(p, k8, x8, y8, u9, v9, x9, y9);
    let x10 = 0x42545a6a59885c28266ae07652d24503c2fb5830c85817f6963981168cbec8f9int;
    let y10 = 0x706406cdbd1ce0bdbd9ea269bab2e060b129d6da0f1e6983fb9b15672c2eb507int;
    let u10 = 0x4c9936b4444858d3936cd5768c7bfaa2b744752123464bf186361bd5b1973813int;
    let v10 = -0x4c9936b4444858d3936cd5768c7bfaa2b744752123464bf186361bd5b1973811int;
    let k10 = double_step(p, k9, x9, y9, u10, v10, x10, y10);
    let x11 = 0x6c1262e3f8a43b517673a0ce209f76cb22d7cd7e54fce6ac235711e441703a02int;
    let y11 = 0x193841cf1e0f528b9a8d508a276202a84f1fb096c5ed013a7f486f0d269c007fint;
    let u11 = 0x5d8310d1174d6ece146596189142d498d6a09b5f050b41f14e9817bfab2fd23dint;
    let v11 = -0x5d8310d1174d6ece146596189142d498d6a09b5f050b41f14e9817bfab2fd23bint;
    let k11 = double_step(p, k10, x10, y10, u11, v11, x11, y11);
    let x12 = 0x57426aefc21be9ccf162e23d25ac3002ba8534351e65613f870f690f2fd46cf5int;
    let y12 = 0x6b45b002fb4e8a6f59a6ffb006ed71f75434217333b266325204c7d1ac2e1f34int;
    let u12 = 0x7022ea9acf3a539652d72f7fd72a28ce309de049bddd97ef1ef16adbfbb1cab7int;
    let v12 = -0x7022ea9acf3a539652d72f7fd72a28ce309de049bddd97ef1ef16adbfbb1cab5int;
    let k12 = double_step(p, k11, x11, y11, u12, v12, x12, y12);
}

proof fn lemma_chain_5()
    requires
        multiple(0x1000000000000000int, 0x57426aefc21be9ccf162e23d25ac3002ba8534351e65613f870f690f2fd46cf5int, 0x6b45b002fb4e8a6f59a6ffb006ed71f75434217333b266325204c7d1ac2e1f34int),
    ensures
        multiple(0x1000000000000000000int, 0x1f6a1fd8cc0e05b2742ba0fc0369b5247670543637dd033e64dbce90b2f23e9fint, 0x779964401ee869a9b31c0ef874a86440ba85d25c2ce932bd31a0865869605e19int),
{
    let p = 0x7fffffffffffffffffffffffffffffffffffffffffffffffffffffffffffffedint;
    let x0 = 0x57426aefc21be9ccf162e23d25ac3002ba8534351e65613f870f690f2fd46cf5int;
    let y0 = 0x6b45b002fb4e8a6f59a6ffb006ed71f75434217333b266325204c7d1ac2e1f34int;
    let k0 = 0x1000000000000000int;
    let x1 = 0x205aa3463e7e41af60f5cff4853fbd6f748aa1b132fe5308807d22c5030b48f5int;
    let y1 = 0x320b08e8ec6153e2be9955058bd26993bf50353e040c556ef8976663448735aaint;
    let u1 = 0x73e319593290cf66a61f73fd5c613be6ee69dfcd3b0f26af962daca4857bb748int;
    let v1 = -0x73e319593290cf66a61f73fd5c613be6ee69dfcd3b0f26af962daca4857bb746int;
    let k1 = double_step(p, k0, x0, y0, u1, v1, x1, y1);
    let x2 = 0x592c8b8843ca1f7d9ee692d5e29bc1612b0a98bea402c5c2e1e8253b65feea37int;
    let y2 = 0x42a352d8dc52fef9017cbe617cdbee3aaefed1935aa62f8679af6f2a1d00b5e0int;
    let u2 = 0x40fd2692a44db48c8bfd4e5cd72c89c839bc2dd3f364eade27ee91c24ee34739int;
    let v2 = -0x40fd2692a44db48c8bfd4e5cd72c89c839bc2dd3f364eade27ee91c24ee34737int;
    let k2 = double_step(p, k1, x1, y1, u2, v2, x2, y2);
    let x3 = 0x41c030fbca90151ce0d0064a815e03825ed77a4ac634604ac7137bd3713af22int;
    let y3 = 0x72467625ee43fb7ac67dc71c655e5c16e4e97c2a3d4445e7e9b33fcf0780f989int;
    let u3 = 0x72a9f885443b9709baec3e46ac2b82a6fcaa9ee745fb02a91a25144d99b9cef3int;
    let v3 = -0x72a9f885443b9709baec3e46ac2b82a6fcaa9ee745fb02a91a25144d99b9cef1int;
    let k3 = double_step(p, k2, x2, y2, u3, v3, x3, y3);
    let x4 = 0x6222bd88bf2df9d5d44b60cfb4a08a960078db7ed51a35eb3e0b6b8ff4eda202int;
    let y4 = 0x325bb42ea4ed025dd6bdaed261b7c4f5410b608ba902b068f1efa5782e45313int;
    let u4 = 0x2b1bb418f235ba4be24ea469cab98f739cbfa42d1b1ec068652064bb16640e42int;
    let v4 = -0x2b1bb418f235ba4be24ea469cab98f739cbfa42d1b1ec068652064bb16640e40int;
    let k4 = double_step(p, k3, x3, y3, u4, v4, x4, y4);
    let x5 = 0x23bc7abc84cb4c4ae5fa62b25a0a8114e8406d9bb93f2091142aa2d8bdba597int;
    let y5 = 0x4d2b97a739eceb14c95020371d7206e904f94b8f2c620dceed8511df0f29c9eeint;
    let u5 = 0x44b4161cc56730b0c4ddd3ee61af107f6ec87d11e0da287cb1dc61a07d10842aint;
    let v5 = -0x44b4161cc56730b0c4ddd3ee61af107f6ec87d11e0da287cb1dc61a07d108428int;
    let k5 = double_step(p, k4, x4, y4, u5, v5, x5, y5);
    let x6 = 0x6d5066cf7137b4a5980aa453b672c84797fc6856f0ef5cf0c4be33fbbd39d169int;
    let y6 = 0x54bb8cd82a0a87c883abe35abeb81857f95200b4222ea95b5cb347115219a417int;
    let u6 = 0x523af3eefed28aa64630c2e72e0f2733576283dc452dead9ae3b970f5b4877c1int;
    let v6 = -0x523af3eefed28aa64630c2e72e0f2733576283dc452dead9ae3b970f5b4877bfint;
    let k6 = double_step(p, k5, x5, y5, u6, v6, x6, y6);
    let x7 = 0x6b66159ac8702d4e34073b76629deab2d3aa50942db5b00e4a73e8be859362a9int;
    let y7 = 0x19dd4bef38efd504e49b3a5d584432b9ce630883226031e75fee1a22c8ca96c5int;
    let u7 = 0x4c97c468e207bb7862ded5a3a6bc95256299273221b8caa42a19d578ea248843int;
    let v7 = -0x4c97c468e207bb7862ded5a3a6bc95256299273221b8caa42a19d578ea248841int;
    let k7 = double_step(p, k6, x6, y6, u7, v7, x7, y7);
    let x8 = 0x71ac99647b61b9eca6f0c23432a518f738aee708d5932d4ef0f172240250a226int;
    let y8 = 0x3a96c2c028ebe5f48913be30147e41bc5e1cab9595d5404138a9aa1b5574cf25int;
    let u8 = 0xbb1488790b680efaaa0399b20fab7f535928a90897d24f5bf572897cb9e1929int;
    let v8 = -0xbb1488790b680efaaa0399b20fab7f535928a90897d24f5bf572897cb9e1927int;
    let k8 = double_step(p, k7, x7, y7, u8, v8, x8, y8);
    let x9 = 0x221b138a1bbb6548d2ef719bbaee436114e7cb6b3225dfb94c327667ec45772bint;
    let y9 = 0x7951b295fab7fbffa46c08f6979bb32060974fb037bf5998d0ba5a38180cad84int;
    let u9 = 0x5421bc5aa8d52fa70a2ccabaeee264c724fd0e8ae69041c0aa9f8359e621b70bint;
    let v9 = -0x5421bc5aa8d52fa70a2ccabaeee264c724fd0e8ae69041c0aa9f8359e621b709int;
    let k9 = double_step(p, k8, x8, y8, u9, v9, x9, y9);
    let x10 = 0x1c1b0d95db6a057eb34f28beeda9f6bbb5315285de2804d15c3b186bdb3f5c28int;
    let y10 = 0x57bd5de4e0056cbb4d98abef9d1e0ed6cab1628ac08e36073e31d00a9ac3c5d5int;
    let u10 = 0x5c10e6f0c1247c93f1cd6abbbaf1b2f4cbdb15f15a9a5bdc7fd7f8bf106b05c1int;
    let v10 = -0x5c10e6f0c1247c93f1cd6abbbaf1b2f4cbdb15f15a9a5bdc7fd7f8bf106b05bfint;
    let k10 = double_step(p, k9, x9, y9, u10, v10, x10, y10);
    let x11 = 0x4f846fad2eefb8c948a8bd3a87d8b4dfa0a0ab643e724ebb1c91437c567c9f47int;
    let y11 = 0xa2640ccde505da1aa9227bacaca13d49a67a199f0e16aa9f86c2a7e1bf02d2dint;
    let u11 = 0x1109b3a5a8f05c7a649cefa45b97af5523e0bb3ac7ba0912fe54d3c0f6b6a95fint;
    let v11 = -0x1109b3a5a8f05c7a649cefa45b97af5523e0bb3ac7ba0912fe54d3c0f6b6a95dint;
    let k11 = double_step(p, k10, x10, y10, u11, v11, x11, y11);
    let x12 = 0x1f6a1fd8cc0e05b2742ba0fc0369b5247670543637dd033e64dbce90b2f23e9fint;
    let y12 = 0x779964401ee869a9b31c0ef874a86440ba85d25c2ce932bd31a0865869605e19int;
    let u12 = 0x22c3172852a90c9d65e2a6ad5f9dfd0571aa87baff9701ac3b79354c44044acfint;
    let v12 = -0x22c3172852a90c9d65e2a6ad5f9dfd0571aa87baff9701ac3b79354c44044acdint;
    let k12 = double_step(p, k11, x11, y11, u12, v12, x12, y12);
}

proof fn lemma_chain_6()
    requires
        multiple(0x1000000000000000000int, 0x1f6a1fd8cc0e05b2742ba0fc0369b5247670543637dd033e64dbce90b2f23e9fint, 0x779964401ee869a9b31c0ef874a86440ba85d25c2ce932bd31a0865869605e19int),
    ensures
        multiple(0x1000000000000000000000int, 0x3f748617ca63ab3e44c6e34f63e7328ea56a2a146da34368a57dca181254fe02int, 0xfed89e6420fc47b3938a2891ba9acee4cbb2899ee4e9ca15a13dc527dc1641eint),
{
    let p = 0x7fffffffffffffffffffffffffffffffffffffffffffffffffffffffffffffedint;
    let x0 = 0x1f6a1fd8cc0e05b2742ba0fc0369b5247670543637dd033e64dbce90b2f23e9fint;
    let y0 = 0x779964401ee869a9b31c0ef874a86440ba85d25c2ce932bd31a0865869605e19int;
    let k0 = 0x1000000000000000000int;
    let x1 = 0x6f0a87af6e0f4a05fa7067cfecd4f98dada3791f714a66648dbb5cbbfd4f326cint;
    let y1 = 0x6b6013813505927dcbcb6a42e887cc1d5fca175e4cd226be6009248c6c6e36c6int;
    let u1 = 0x5b3ec8505799229a8327c85cba17daebd1d4e8b68f1de4b9598276596da88f8eint;
    let v1 = -0x5b3ec8505799229a8327c85cba17daebd1d4e8b68f1de4b9598276596da88f8cint;
    let k1 = double_step(p, k0, x0, y0, u1, v1, x1, y1);
    let x2 = 0x1f90c7ef4610dd083b3d64bac47574d9da326b536b9a6eb0f6c3134a847a0564int;
    let y2 = 0x63344ccbe4169ab97a13c3ccb097c0f4fdffbcf6284412303c79a1c8ce3a2f7bint;
    let u2 = 0x719afd2b7127b9f1cc997a8b19af319d9408386cd94d044412b60a925c335823int;
    let v2 = -0x719afd2b7127b9f1cc997a8b19af319d9408386cd94d044412b60a925c335821int;
    let k2 = double_step(p, k1, x1, y1, u2, v2, x2, y2);
    let x3 = 0x47ac42e7c59481a928348d7aaaade88b00b7aae4e73ebe0dd20e33092dd34e07int;
    let y3 = 0x28a6c1d1356c10ebea15cbfd161ae974f3b2a4f51ed06403c2f09bb58f7a8924int;
    let u3 = 0x5cb6c65f0bbeca5fbe84ea103e16a4a7888667c5a30e09d3fb343c5854bec3deint;
    let v3 = -0x5cb6c65f0bbeca5fbe84ea103e16a4a7888667c5a30e09d3fb343c5854bec3dcint;
    let k3 = double_step(p, k2, x2, y2, u3, v3, x3, y3);
    let x4 = 0x22e2c039067920c42980dcb3a905fc91601c2b34e819ce1532ada4a5fc39d5ccint;
    let y4 = 0x631cf9945a09bf26d7e595b3f8e3390696870512820df63c5418577089e1a8bbint;
    let u4 = 0x8766c8ec7691b44fc2b5825c2b93175f1226db227d57d83771586f6bfa9addbint;
    let v4 = -0x8766c8ec7691b44fc2b5825c2b93175f1226db227d57d83771586f6bfa9add9int;
    let k4 = double_step(p, k3, x3, y3, u4, v4, x4, y4);
    let x5 = 0x1a62e85ba4a14a3f24f9dca8529ca842f5c7f18a3f429886d6b13673649ad53dint;
    let y5 = 0x1f6d17d9a1e5c5d8cbb98100757e5183551d00091183e6a5e1eb0dd514c8bdc5int;
    let u5 = 0x5faaee92d960e21384057b61d961d90bda6fda15c6964d0f7737741581a98352int;
    let v5 = -0x5faaee92d960e21384057b61d961d90bda6fda15c6964d0f7737741581a98350int;
    let k5 = double_step(p, k4, x4, y4, u5, v5, x5, y5);
    let x6 = 0x36b566a2c0f8e36e760992eb83d509238731939dd9dd0d19513f52e1e9e4f9eaint;
    let y6 = 0x1bde4ad0433ee4e19e734c558978dd945ed244e38414387a43e70232ed39bb3aint;
    let u6 = 0x66ca1b88eec87e9d06300579048bd1ffe1d384c822b1d0ae3ee5e4c81a773b32int;
    let v6 = -0x66ca1b88eec87e9d06300579048bd1ffe1d384c822b1d0ae3ee5e4c81a773b30int;
    let k6 = double_step(p, k5, x5, y5, u6, v6, x6, y6);
    let x7 = 0xfc8f365bb4b04e275d358bd3c277745c565eedff84179ee72cbc5a3e38fe7b2int;
    let y7 = 0x16f91c8191db1e7817455b6a395de2b0f4396697920ba0cd4874e2b534937b24int;
    let u7 = 0x68ba37dd9ea6cc3d3df9c95d22a44456fd242e60a1cab5be37f2149fc29279d9int;
    let v7 = -0x68ba37dd9ea6cc3d3df9c95d22a44456fd242e60a1cab5be37f2149fc29279d7int;
    let k7 = double_step(p, k6, x6, y6, u7, v7, x7, y7);
    let x8 = 0x608de273a9f6a534219d7aaede3cf65a81e4dc03d7a2765eced1d2b7be4610f4int;
    let y8 = 0x3b31d0113f98d81ab1312fb2837aa9c8dcc7960f84eb371358c6d841f67144faint;
    let u8 = 0xc61bdf71ee8f96c699b847ef22930c0dc608e6ebf77a680dc66735c1411425int;
    let v8 = -0xc61bdf71ee8f96c699b847ef22930c0dc608e6ebf77a680dc66735c1411423int;
    let k8 = double_step(p, k7, x7, y7, u8, v8, x8, y8);
    let x9 = 0x8d1e75a33bf363f2ef64faa0ab5f9582d1181b793ec9452ea93a3011634d581int;
    let y9 = 0x47dd939350f06a41ea9c3d889d127155d0275926d05b5bc43977b5ccae42cf1aint;
    let u9 = 0x5d25274789f2ff0ec73f8abf9357454c3fd6bc3ea964931c55017a3b0fe708f5int;
    let v9 = -0x5d25274789f2ff0ec73f8abf9357454c3fd6bc3ea964931c55017a3b0fe708f3int;
    let k9 = double_step(p, k8, x8, y8, u9, v9, x9, y9);
    let x10 = 0xb2fcb60a19e6a0a29bcc1e5224ee0acfd648e6ee2143f90a5f5aa1c6d51c96fint;
    let y10 = 0x6301b568e9c613866d76b4c693de25e83435344795fb78c3c5e944a1f33239dcint;
    let u10 = 0x72d48f1da88eb5ba120d041133d8897503be43e6d0d08191728d3a70ccae9ed8int;
    let v10 = -0x72d48f1da88eb5ba120d041133d8897503be43e6d0d08191728d3a70ccae9ed6int;
    let k10 = double_step(p, k9, x9, y9, u10, v10, x10, y10);
    let x11 = 0xb216ceec26c5cc827ebff75a3b41630d8925bcf8ae53c7dea348f4c0dd3ae27int;
    let y11 = 0x563053b0dec5518f24c57a3f9138916ec287602e8a557819ad77aa2a5312bac3int;
    let u11 = 0x7e1d25b11eb130600bfef6c4eb759197fd2431e89203e54b36b3f3d1699841ebint;
    let v11 = -0x7e1d25b11eb130600bfef6c4eb759197fd2431e89203e54b36b3f3d1699841e9int;
    let k11 = double_step(p, k10, x10, y10, u11, v11, x11, y11);
    let x12 = 0x3f748617ca63ab3e44c6e34f63e7328ea56a2a146da34368a57dca181254fe02int;
    let y12 = 0xfed89e6420fc47b3938a2891ba9acee4cbb2899ee4e9ca15a13dc527dc1641eint;
    let u12 = 0x7bd9b2afc3517feb87558b3cccd469c8bd1fe58a9ec67960fa4382038ba9dc59int;
    let v12 = -0x7bd9b2afc3517feb87558b3cccd469c8bd1fe58a9ec67960fa4382038ba9dc57int;
    let k12 = double_step(p, k11, x11, y11, u12, v12, x12, y12);
}

proof fn lemma_chain_7()
    requires
        multiple(0x1000000000000000000000int, 0x3f748617ca63ab3e44c6e34f63e7328ea56a2a146da34368a57dca181254fe02int, 0xfed89e6420fc47b3938a2891ba9acee4cbb2899ee4e9ca15a13dc527dc1641eint),
    ensures
        multiple(0x1000000000000000000000000int, 0x51f4ff8c599b1c96da82941520a9f5abf4a31eb8b84fc95056145ceb3b5775d0int, 0x35ac9588d46e41f3f6f99aee3852eeb4b12e807807d4bd1b7f8406b0d7863ac1int),
{
    let p = 0x7fffffffffffffffffffffffffffffffffffffffffffffffffffffffffffffedint;
    let x0 = 0x3f748617ca63ab3e44c6e34f63e7328ea56a2a146da34368a57dca181254fe02int;
    let y0 = 0xfed89e6420fc47b3938a2891ba9acee4cbb2899ee4e9ca15a13dc527dc1641eint;
    let k0 = 0x1000000000000000000000int;
    let x1 = 0x8f050e6e4bbb5e43b756c82a0ffd60723f78c3fdfb49c50378a1083808c3cf3int;
    let y1 = 0x38900048f0768542b4b9354736b6880632a94601a17a15adf4f233924875ee62int;
    let u1 = 0x16f22c47ffe324506330142bf4059b4abcc0f14fe26ef3aa9536a3c9d1fb5a6cint;
    let v1 = -0x16f22c47ffe324506330142bf4059b4abcc0f14fe26ef3aa9536a3c9d1fb5a6aint;
    let k1 = double_step(p, k0, x0, y0, u1, v1, x1, y1);
    let x2 = 0x2583374456f20c85e78e820263e1507524897a5232050bd0ebfc357d04b900bdint;
    let y2 = 0x62d1c4fffd5ac72c7e7dd52c2bc9ea4077ebb7032a39291e0212da60cbcea18fint;
    let u2 = 0x4fe50b1ec54b3d95561932ab67495742889d50d3da5ea2ac59098eec330a6ad8int;
    let v2 = -0x4fe50b1ec54b3d95561932ab67495742889d50d3da5ea2ac59098eec330a6ad6int;
    let k2 = double_step(p, k1, x1, y1, u2, v2, x2, y2);
    let x3 = 0x5b4079d8c7a5a10bb68984233b2726bd95196ae2b50e6052441fc4e5b98881dint;
    let y3 = 0x2329432253e9aa57901c1369e57e54e4a363d2cfe69069108c833fa8d79f612fint;
    let u3 = 0x785e4fc696c732ac50244871bacc87aff337f67dc4244c1403578a716b675f45int;
    let v3 = -0x785e4fc696c732ac50244871bacc87aff337f67dc4244c1403578a716b675f43int;
    let k3 = double_step(p, k2, x2, y2, u3, v3, x3, y3);
    let x4 = 0x69d98b5ecc35d56c97c0bf312955d199befe116b417d70f5f57e2dfd0af81ce5int;
    let y4 = 0x3e26d487fbfe36ab44e0ca3b248fe94bce92a69b8154d50e2d5481f8259f4e8eint;
    let u4 = 0x50334f2fa1769005533691a87835e3986f5df9da71512ebf9038d56ccbe73beint;
    let v4 = -0x50334f2fa1769005533691a87835e3986f5df9da71512ebf9038d56ccbe73bcint;
    let k4 = double_step(p, k3, x3, y3, u4, v4, x4, y4);
    let x5 = 0x62a8a839f45660759f741c7892703326e4ad11bd9e102c0770af6ad49dd4b6d9int;
    let y5 = 0x3d45d6c61b8a03c29d11cb1e9660112995fd3bc8c1553ae897448b613555bf3bint;
    let u5 = 0x3dada0bec418e25a5e614093f0d0cad6c2483e734560de52761322b4c6848e61int;
    let v5 = -0x3dada0bec418e25a5e614093f0d0cad6c2483e734560de52761322b4c6848e5fint;
    let k5 = double_step(p, k4, x4, y4, u5, v5, x5, y5);
    let x6 = 0x4e1c036204e123f311e8da4e3fa212fcf0acafbded425b71a66b0dccb2500e7eint;
    let y6 = 0x6a5908d961f00a62a2ac904fd824f6932f0e735f257a7d0d273d61736f1bb1c8int;
    let u6 = 0x6593f482f3ba1e931f84954e26853de413e877146c67b4644d226d242568f4fcint;
    let v6 = -0x6593f482f3ba1e931f84954e26853de413e877146c67b4644d226d242568f4faint;
    let k6 = double_step(p, k5, x5, y5, u6, v6, x6, y6);
    let x7 = 0x7fe8906b455e9f3a49464810d3e6b8e5fef5d17226ddea3b18f08e2ff8552d6fint;
    let y7 = 0x1300ff9d28f135030203b137ea4a3ec18d5dd0dd6b29a6ee7040b97b336976d3int;
    let u7 = 0x522c394e296105e9fdc910dbe75cd66dce923911304586303e6487fe8ee578f2int;
    let v7 = -0x522c394e296105e9fdc910dbe75cd66dce923911304586303e6487fe8ee578f0int;
    let k7 = double_step(p, k6, x6, y6, u7, v7, x7, y7);
    let x8 = 0x1e34443347f9e627b3531157faab6eaca1bc3114df4a1423cc12bf8417b5d622int;
    let y8 = 0x295955a5ed061eca7f87b9485666ba9489ec20a9c484224dc920350bb4a6fc79int;
    let u8 = 0x49f54009fc74f58cc003d471fa45dcc55632f161ece06312a7f9f2863ea43a46int;
    let v8 = -0x49f54009fc74f58cc003d471fa45dcc55632f161ece06312a7f9f2863ea43a44int;
    let k8 = double_step(p, k7, x7, y7, u8, v8, x8, y8);
    let x9 = 0x4cab819c06b2f861b4be5b06a918bc314bf29f56cff389ae2ba8abd5f1f5e156int;
    let y9 = 0x1f10fb18bd5ecfe633b53936f70ce8e58b6a864e679297770f2b38160176681fint;
    let u9 = 0x447cdbac5560a39787f87f73eb596d71de92291efec9ee99d103e27da83121c9int;
    let v9 = -0x447cdbac5560a39787f87f73eb596d71de92291efec9ee99d103e27da83121c7int;
    let k9 = double_step(p, k8, x8, y8, u9, v9, x9, y9);
    let x10 = 0x7c686b90cf6ff6a3a59cc7d8a5e00a2c9b2204decf83f96bb56b53ef630df083int;
    let y10 = 0xf1deab1d3a4a3d2528d9103d118fafda873ccf0a518c45821d51a7fd71533int;
    let u10 = 0x63b45d5a345c6034bead30dfa0ec44d76275ee57a4d6965bdc0e34f7753f5f0dint;
    let v10 = -0x63b45d5a345c6034bead30dfa0ec44d76275ee57a4d6965bdc0e34f7753f5f0bint;
    let k10 = double_step(p, k9, x9, y9, u10, v10, x10, y10);
    let x11 = 0xaecf4e5a0c4c4da709921a44dca45965f89a3215bb5445cf72dddf4ade53a2cint;
    let y11 = 0x19304020c00e6169712d6050734bf5c51bd0af80b5ba4a6a0ba008e965216807int;
    let u11 = 0x6419de3e047a4d3744fd1db35245a2a9813355e196014ebd7f9c2441d698b197int;
    let v11 = -0x6419de3e047a4d3744fd1db35245a2a9813355e196014ebd7f9c2441d698b195int;
    let k11 = double_step(p, k10, x10, y10, u11, v11, x11, y11);
    let x12 = 0x51f4ff8c599b1c96da82941520a9f5abf4a31eb8b84fc95056145ceb3b5775d0int;
    let y12 = 0x35ac9588d46e41f3f6f99aee3852eeb4b12e807807d4bd1b7f8406b0d7863ac1int;
    let u12 = 0xf30c19a572df0bbec354d3aeb6db54c7173c8c435a136fe9e14e3bd38bcba10int;
    let v12 = -0xf30c19a572df0bbec354d3aeb6db54c7173c8c435a136fe9e14e3bd38bcba0eint;
    let k12 = double_step(p, k11, x11, y11, u12, v12, x12, y12);
}

proof fn lemma_chain_8()
    requires
        multiple(0x1000000000000000000000000int, 0x51f4ff8c599b1c96da82941520a9f5abf4a31eb8b84fc95056145ceb3b5775d0int, 0x35ac9588d46e41f3f6f99aee3852eeb4b12e807807d4bd1b7f8406b0d7863ac1int),
    ensures
        multiple(0x1000000000000000000000000000int, 0x49761c57ce3c8c4f1435d495903e2f536f3be3712e76af8d0b5a8b7d1ebc8facint, 0x3225035e1065094ef32d7f3e7a6f8ff2748025f96e0c0b44eb35576b61e150a8int),
{
    let p = 0x7fffffffffffffffffffffffffffffffffffffffffffffffffffffffffffffedint;
    let x0 = 0x51f4ff8c599b1c96da82941520a9f5abf4a31eb8b84fc95056145ceb3b5775d0int;
    let y0 = 0x35ac9588d46e41f3f6f99aee3852eeb4b12e807807d4bd1b7f8406b0d7863ac1int;
    let k0 = 0x1000000000000000000000000int;
    let x1 = 0x568de690133ca63f63c08161d852682fa5696c0ee66bf8f3ec729b6a71bf9741int;
    let y1 = 0x4c48220992e8e64741dcdc433a0e65b43a5bae7f4d743e3d1bfdb123773039e8int;
    let u1 = 0x1517e5601db0083ed73d928efbdb038160fcb16f3ae77dc27c74a6ae7277c726int;
    let v1 = -0x1517e5601db0083ed73d928efbdb038160fcb16f3ae77dc27c74a6ae7277c724int;
    let k1 = double_step(p, k0, x0, y0, u1, v1, x1, y1);
    let x2 = 0x3342c4717d55221def46b89fdd237cf4e9528170f9b524bc6e730cc4663403daint;
    let y2 = 0x50676cdf00c935368d54ccf1fa7dd2671cd7ea46686e61fca49dc6a85b6937c5int;
    let u2 = 0x214e224602d34670b994a66b89c2a6d4c36c256adc361db73ff8e7c8afe871edint;
    let v2 = -0x214e224602d34670b994a66b89c2a6d4c36c256adc361db73ff8e7c8afe871ebint;
    let k2 = double_step(p, k1, x1, y1, u2, v2, x2, y2);
    let x3 = 0x3396978bfc50b33d58eb8dccc52201ef36dfd27b914d8aa86f6ba45d29424d9aint;
    let y3 = 0x5ccf1359113c127dcb9d35bf9107cccb453eac7ca7ddbdabb1d0ca4ac8073393int;
    let u3 = 0x567ed950120b8af177e3bdd96465b32780b8c8aa380194b1db3f6d05e49e251eint;
    let v3 = -0x567ed950120b8af177e3bdd96465b32780b8c8aa380194b1db3f6d05e49e251cint;
    let k3 = double_step(p, k2, x2, y2, u3, v3, x3, y3);
    let x4 = 0x3faa2a093a19a02424f65a10955101f4dc015c43b2dfce8e001507abd741b845int;
    let y4 = 0x7a1de10dacfda389ca663b15574bdc8ae8c5b6e7cee647e77b11ddbfc6eb8edcint;
    let u4 = 0x4d5597e63df1c633682339cfa71d1c5af3be66f8a3058d1e8714570bd420adb7int;
    let v4 = -0x4d5597e63df1c633682339cfa71d1c5af3be66f8a3058d1e8714570bd420adb5int;
    let k4 = double_step(p, k3, x3, y3, u4, v4, x4, y4);
    let x5 = 0x30f9cd3076c51c96a9baeda10ec893105d920f022947716064e32717aee8e3c5int;
    let y5 = 0x2caedfaa420120c6711921684f9f5a2b8079045fbf3a4efd7e4fa7bc8cbdb095int;
    let u5 = 0x19004e2c88ac8eb01075a9ebbe27a2f9fc379158a9254ffd970cfd9885fa4f9dint;
    let v5 = -0x19004e2c88ac8eb01075a9ebbe27a2f9fc379158a9254ffd970cfd9885fa4f9bint;
    let k5 = double_step(p, k4, x4, y4, u5, v5, x5, y5);
    let x6 = 0x6070951e96e618be7d750fa819593ecbfe9c26972471ebed72c093714b7e6e90int;
    let y6 = 0x7bb8b8086b2c8f273841de642871dc22c7adb51944d64304c0fe5f4c1d3e6689int;
    let u6 = 0x791e593ce03a4d8e9f5a928dcd65baa034c4539997cb90c9d2ba2532c215372fint;
    let v6 = -0x791e593ce03a4d8e9f5a928dcd65baa034c4539997cb90c9d2ba2532c215372dint;
    let k6 = double_step(p, k5, x5, y5, u6, v6, x6, y6);
    let x7 = 0x1ec0eb040164dd81f57ebc3a26c3e8606154303a1e5de3af27b1afd99d27703dint;
    let y7 = 0x3df62c38b3077c694268ed7aae9a3329999e190eb81f07326e5cc3a1d1a42cdaint;
    let u7 = 0x27e7249f90f59530f3e8abced29841ab92cca4995ef2b2355610aa31286d32a4int;
    let v7 = -0x27e7249f90f59530f3e8abced29841ab92cca4995ef2b2355610aa31286d32a2int;
    let k7 = double_step(p, k6, x6, y6, u7, v7, x7, y7);
    let x8 = 0x1924416956ea2c1269062588569b18178011ea7cba1a3266284f48aa01d5a90fint;
    let y8 = 0xc8e28127b7dcdd206fb6fee96eb88cfc7db7319826ac8cdb8b1fb8adaf021deint;
    let u8 = 0x77be4429dd71d1592f2d811538223b0ede04de324b0edce8110dcab6a68313dfint;
    let v8 = -0x77be4429dd71d1592f2d811538223b0ede04de324b0edce8110dcab6a68313ddint;
    let k8 = double_step(p, k7, x7, y7, u8, v8, x8, y8);
    let x9 = 0x2898ffaab663ed49ec57038cecd898fb84076bf49bf6f5c4403aff28ce974493int;
    let y9 = 0x94f3b96ab6c9477e759d6bcb9934557e613a0f4fa4fb6c6f4b3bc46f335163dint;
    let u9 = 0x779ad1231db383f01bb0f69549a85a37cf02af469a58f0f0156a5b1766123f51int;
    let v9 = -0x779ad1231db383f01bb0f69549a85a37cf02af469a58f0f0156a5b1766123f4fint;
    let k9 = double_step(p, k8, x8, y8, u9, v9, x9, y9);
    let x10 = 0x34e2ddf5115701105d5d590f6617ccd7716c01b247948470c1514f12016bf75aint;
    let y10 = 0x1bdaea88b78eb71777558f7452cd868e6d7fc33a0f85c3d2038bac585c1fd926int;
    let u10 = 0xa293ceb79001c416a06055bcd6f3cdffff943aed39dc9bdd6cc07f031cf78dbint;
    let v10 = -0xa293ceb79001c416a06055bcd6f3cdffff943aed39dc9bdd6cc07f031cf78d9int;
    let k10 = double_step(p, k9, x9, y9, u10, v10, x10, y10);
    let x11 = 0x4cb56bd83d7bb25558c34ece98dd878ca5fe850aa79f4bf656269fedfe165cc8int;
    let y11 = 0x5d1f6fb463251914535bd81a9f9a8aea4d5ea5309b86c4eb8fb4a7fa15a03865int;
    let u11 = 0x503d90f9db4b02f2db72e01814717a528acc07b0aa2191b7f7e07f1869c77882int;
    let v11 = -0x503d90f9db4b02f2db72e01814717a528acc07b0aa2191b7f7e07f1869c77880int;
    let k11 = double_step(p, k10, x10, y10, u11, v11, x11, y11);
    let x12 = 0x49761c57ce3c8c4f1435d495903e2f536f3be3712e76af8d0b5a8b7d1ebc8facint;
    let y12 = 0x3225035e1065094ef32d7f3e7a6f8ff2748025f96e0c0b44eb35576b61e150a8int;
    let u12 = 0xe22c3fd14e922eac0d9b1fd4b93a713b4d102bc4bce5cc9717075f477542145int;
    let v12 = -0xe22c3fd14e922eac0d9b1fd4b93a713b4d102bc4bce5cc9717075f477542143int;
    let k12 = double_step(p, k11, x11, y11, u12, v12, x12, y12);
}

proof fn lemma_chain_9()
    requires
        multiple(0x1000000000000000000000000000int, 0x49761c57ce3c8c4f1435d495903e2f536f3be3712e76af8d0b5a8b7d1ebc8facint, 0x3225035e1065094ef32d7f3e7a6f8ff2748025f96e0c0b44eb35576b61e150a8int),
    ensures
        multiple(0x1000000000000000000000000000000int, 0x4da4821314574d4fed4dcf692c8b15b99b73f13633210333ce7871359b6e6424int, 0x314016034673d2d20529bc93a2dab6e462bcb5f66e1f4a6bf2170759a40a6e65int),
{
    let p = 0x7fffffffffffffffffffffffffffffffffffffffffffffffffffffffffffffedint;
    let x0 = 0x49761c57ce3c8c4f1435d495903e2f536f3be3712e76af8d0b5a8b7d1ebc8facint;
    let y0 = 0x3225035e1065094ef32d7f3e7a6f8ff2748025f96e0c0b44eb35576b61e150a8int;
    let k0 = 0x1000000000000000000000000000int;
    let x1 = 0x654b39f4650804bfb7c76a3d254377050002240e2f794f8de21de5640fdc60a9int;
    let y1 = 0x50ce7be2f1011218849a34ce62654414a8dcaea8b4db9b45dce3b76a6b121996int;
    let u1 = 0x1ad46b5b891dc7ee2eb2a96573c2b59f4f2e01f5bac9e6526a02168f33aec063int;
    let v1 = -0x1ad46b5b891dc7ee2eb2a96573c2b59f4f2e01f5bac9e6526a02168f33aec061int;
    let k1 = double_step(p, k0, x0, y0, u1, v1, x1, y1);
    let x2 = 0x91605b338ea1bd98bdfae06ba25bd540525a3b02efa65df30de5c6e8c637d0fint;
    let y2 = 0x1df405521e9a2232baf654aa3d2f66bdd6d57fd5bac96f5aa5f8ad2864bf8cc7int;
    let u2 = 0xcaa644f7c0f6424eba47a9bd210771aa80a08b97af3697fd2218c57c813b30dint;
    let v2 = -0xcaa644f7c0f6424eba47a9bd210771aa80a08b97af3697fd2218c57c813b30bint;
    let k2 = double_step(p, k1, x1, y1, u2, v2, x2, y2);
    let x3 = 0x4606fdec56d46970938a8f9fa5f24624f5b9c6f488b72cb1fc87e4feebbb1faaint;
    let y3 = 0xf00d9e6656d8243e0350fa5b89beefa58e9af955ed650a6d90cce344ecf664eint;
    let u3 = 0x6451c475a5622a1e404324c6bb9e5e75a4d1ea94b07db84fec6739af8405eeb9int;
    let v3 = -0x6451c475a5622a1e404324c6bb9e5e75a4d1ea94b07db84fec6739af8405eeb7int;
    let k3 = double_step(p, k2, x2, y2, u3, v3, x3, y3);
    let x4 = 0x4339fa86a23242851a16afc3ab05b352a7b4bf53599a49dd7e29d364fc3a757bint;
    let y4 = 0x6d07cc3462bae9160bbebb997510817040767faa9dbd13f158a5fe8a63a34b0eint;
    let u4 = 0x4531a9ed365eceb17a184d37b3df19c7e9f6a056d08f6f376553e4cc73c21b9int;
    let v4 = -0x4531a9ed365eceb17a184d37b3df19c7e9f6a056d08f6f376553e4cc73c21b7int;
    let k4 = double_step(p, k3, x3, y3, u4, v4, x4, y4);
    let x5 = 0x62332ee4f8ee5e56398dd304eca6ffbcde556467ba2c0d5fabb64e9736c701ebint;
    let y5 = 0x3e1bfb3c0218cf9f7e6a2f47f179f29b0ad68235929b4921fda74bc89fb8ef65int;
    let u5 = 0x20565992f35be91c349d2ba2e68bb4f550c7dcf00da9e814ced3edad4f80d65eint;
    let v5 = -0x20565992f35be91c349d2ba2e68bb4f550c7dcf00da9e814ced3edad4f80d65cint;
    let k5 = double_step(p, k4, x4, y4, u5, v5, x5, y5);
    let x6 = 0x7b9e0081b2e20f4f3d3f6d57f7bf977b2f192142a2a9e40b1aacd15140c88b2fint;
    let y6 = 0x93854716ef9794d2057036ff3f97da686fa3a1784c42279e8abf1fcc42b858cint;
    let u6 = 0x451b1e7c62dafc1af14247f69e4b253598c742f2fea758febb334d6544e58fddint;
    let v6 = -0x451b1e7c62dafc1af14247f69e4b253598c742f2fea758febb334d6544e58fdbint;
    let k6 = double_step(p, k5, x5, y5, u6, v6, x6, y6);
    let x7 = 0x7ecfa6b215265291f32d21771e88699aac3133fdb93ef3a479f95e2fa8742940int;
    let y7 = 0x10958b5cdaf36afe557b7e60184207ce6d81883edf035bea63cb7da46c4720c6int;
    let u7 = 0x3227cc0e4f6b0c783c11d482924c950f759f5782d2aabf0bb28a6444ffdbf647int;
    let v7 = -0x3227cc0e4f6b0c783c11d482924c950f759f5782d2aabf0bb28a6444ffdbf645int;
    let k7 = double_step(p, k6, x6, y6, u7, v7, x7, y7);
    let x8 = 0x6bda13918dcbaf8529d6326ae7a9c278b72417c2188c5ea4f062fc50639295fbint;
    let y8 = 0x2c3fa803b162ee887d0d97a6734866f992f846625f314117075da54bb6c20a36int;
    let u8 = 0x205be81f3bb7943b70f35a51a05f3ab7be944a2c33fe08f2aa4bdde6f54bb8e7int;
    let v8 = -0x205be81f3bb7943b70f35a51a05f3ab7be944a2c33fe08f2aa4bdde6f54bb8e5int;
    let k8 = double_step(p, k7, x7, y7, u8, v8, x8, y8);
    let x9 = 0x19af956d2b5b4ac28b0c67889f19ad66a40f4bca1625e2007963e8a98a70b14aint;
    let y9 = 0x5e228bb5fbae687754307287833c3245a1ab34684a5a69174f72b460ccb69d8bint;
    let u9 = 0x6e5be497315d146d66fb6cc0bdc1c0a198794662e99042c53e88f246ce83ffc9int;
    let v9 = -0x6e5be497315d146d66fb6cc0bdc1c0a198794662e99042c53e88f246ce83ffc7int;
    let k9 = double_step(p, k8, x8, y8, u9, v9, x9, y9);
    let x10 = 0x45bf322997c4469aac6d1e4251fb3490e60e7c0cd5cdd6f5cfb9bbc53587b9f1int;
    let y10 = 0x529d884884075753fd9a2f9ba021ff427fea7b9773f0d4885da5edc024c69e66int;
    let u10 = 0x8570a0747fc919a36907ce402f2a855b872404299180c8452ab7ca7cda8626aint;
    let v10 = -0x8570a0747fc919a36907ce402f2a855b872404299180c8452ab7ca7cda86268int;
    let k10 = double_step(p, k9, x9, y9, u10, v10, x10, y10);
    let x11 = 0x39632228d7d1471800e549128f91a680c9a64e37ae27d919a2609ce21522c607int;
    let y11 = 0x6f59557cabbd86e8e4d546e2aae6ac26b27b671ebd049539991e9ef27e00e2e8int;
    let u11 = 0x4bc4d47b23e9e135b46545192c4af012035f31ab8b2c839763c44c172da67340int;
    let v11 = -0x4bc4d47b23e9e135b46545192c4af012035f31ab8b2c839763c44c172da6733eint;
    let k11 = double_step(p, k10, x10, y10, u11, v11, x11, y11);
    let x12 = 0x4da4821314574d4fed4dcf692c8b15b99b73f13633210333ce7871359b6e6424int;
    let y12 = 0x314016034673d2d20529bc93a2dab6e462bcb5f66e1f4a6bf2170759a40a6e65int;
    let u12 = 0x40bc2a96df220f27c8b2c4bb493f8a40f074e4c89012200305e6d2feb33a8e55int;
    let v12 = -0x40bc2a96df220f27c8b2c4bb493f8a40f074e4c89012200305e6d2feb33a8e53int;
    let k12 = double_step(p, k11, x11, y11, u12, v12, x12, y12);
}

proof fn lemma_chain_10()
    requires
        multiple(0x1000000000000000000000000000000int, 0x4da4821314574d4fed4dcf692c8b15b99b73f13633210333ce7871359b6e6424int, 0x314016034673d2d20529bc93a2dab6e462bcb5f66e1f4a6bf2170759a40a6e65int),
    ensures
        multiple(0x400000000000000000000000000000005int, 0x7ea78304507728dd99f0086fb9e090c5967f5f6a9c5d8fca0a1ec954baea07cbint, 0x754069dc0e577bbaa4e6e641df716fef040ad634ffe944b8a97b3eb227cdd25fint),
{
    let p = 0x7fffffffffffffffffffffffffffffffffffffffffffffffffffffffffffffedint;
    let e = 0x3788bdb44f8632d42d0dbee5eea1acc6136cf411e655624f55e48902c3bd5534int;
    let bx = 0x216936d3cd6e53fec0a4e231fdd6dc5c692cc7609525a7b2c9562d608f25d51aint;
    let by = 0x6666666666666666666666666666666666666666666666666666666666666658int;
    lemma_base();
    let x0 = 0x4da4821314574d4fed4dcf692c8b15b99b73f13633210333ce7871359b6e6424int;
    let y0 = 0x314016034673d2d20529bc93a2dab6e462bcb5f66e1f4a6bf2170759a40a6e65int;
    let k0 = 0x1000000000000000000000000000000int;
    let x1 = 0x22423cb8e82129da6655d94354181feb5b1c789806240b135c4da1bd156d734cint;
    let y1 = 0x627dcf9be9be798eb639f6b776ce9ef34573c7a7f1d1ed220b1a23156f08cdb4int;
    let u1 = 0x713fa4dfa83d154874558f37d2d89fa076154c7d8fd91c37c37354fa6a5ed0a7int;
    let v1 = -0x713fa4dfa83d154874558f37d2d89fa076154c7d8fd91c37c37354fa6a5ed0a5int;
    let k1 = double_step(p, k0, x0, y0, u1, v1, x1, y1);
    let x2 = 0x4230253b946f9c176ea49e7fe2b913a35738999750b1e21555104dcab320bb4int;
    let y2 = 0x4db9dd92f8d939e6e4d0b0245ef57a62d793b173e977b8fa69558741d1e5afcint;
    let u2 = 0x1d5c7319f5c4f52748a6fa508c91904d0d890480763efcc7126796e26f9050bfint;
    let v2 = -0x1d5c7319f5c4f52748a6fa508c91904d0d890480763efcc7126796e26f9050bdint;
    let k2 = double_step(p, k1, x1, y1, u2, v2, x2, y2);
    let x3 = 0x63b06e648bf7aa8e8bbf75c0f3e0bc5d438683b063be9f4f09de91589756d7c0int;
    let y3 = 0x1b17d88ed99541bf1b2cfd50b7d4d87ffd627bb708d0c2445c68249be08bae16int;
    let u3 = 0x2d4198bfd6415d2b67a5f37f25e3c7e97569c4fb873b615cfdd0c124d5ee30d9int;
    let v3 = -0x2d4198bfd6415d2b67a5f37f25e3c7e97569c4fb873b615cfdd0c124d5ee30d7int;
    let k3 = double_step(p, k2, x2, y2, u3, v3, x3, y3);
    let x4 = 0xb2cea0029ee963c0034b61bf19e384435f14554a7d297b5144838c38e375586int;
    let y4 = 0x47ea95da28d39aaade5edb8ed941c687603cfdd1508776e96d6683199e99daeaint;
    let u4 = 0x5f5baa41ce3e87701ad27122a229e591f7cc42b1bf25bc53ee95a153eebd5fa3int;
    let v4 = -0x5f5baa41ce3e87701ad27122a229e591f7cc42b1bf25bc53ee95a153eebd5fa1int;
    let k4 = double_step(p, k3, x3, y3, u4, v4, x4, y4);
    let x5 = 0x6e3d157d1cd96bb4ed4cb069497e6041334d698b1640a59a44a45cde613aabdint;
    let y5 = 0x72f5ce3c9ce0c93d9339b91978f1d9c688b56b3a3850627c7d7f93c427456c7aint;
    let u5 = 0x5057b54fa827a6c9f673828e6df2948b1b6828db1ba1dc51bc66e2dbdff6a52fint;
    let v5 = -0x5057b54fa827a6c9f673828e6df2948b1b6828db1ba1dc51bc66e2dbdff6a52dint;
    let k5 = double_step(p, k4, x4, y4, u5, v5, x5, y5);
    let x6 = 0x1f13202c95083f854583ff4cda13ef4b1e745a880460850e59e22c567d23ea24int;
    let y6 = 0x66336d356c381b7ef21109e7fdfd7ffa0085087eb55c4778ad42025c90275f48int;
    let u6 = 0x760871bfd61e201f2611e959617a8e5b132217abc7cd3bf4d764ed6ff3f0f6b7int;
    let v6 = -0x760871bfd61e201f2611e959617a8e5b132217abc7cd3bf4d764ed6ff3f0f6b5int;
    let k6 = double_step(p, k5, x5, y5, u6, v6, x6, y6);
    let x7 = 0x1d4e70e7fa35c13ec61efe8d7b8ae9e621144c1eb2454c350920e4ac81360393int;
    let y7 = 0x7b2807a91ce09ff20a518d85be729e118ae448b51763e880abd15795ddc22e61int;
    let u7 = 0x350569033025fb72d103625dad03fe5230e3caee2c9504184985d13bb4595495int;
    let v7 = -0x350569033025fb72d103625dad03fe5230e3caee2c9504184985d13bb4595493int;
    let k7 = double_step(p, k6, x6, y6, u7, v7, x7, y7);
    let x8 = 0x4c27afff3c45f32c952d3984e14e29a098e685c9c2e723e5fc8047ae60b7e824int;
    let y8 = 0x5f2c99e6526dc87d95f11eb626c29c3a90d0be1e51a4c49e5bbabd114bf5a66bint;
    let u8 = 0x2c336877c6f2c1b0a19722d7a13bf25f13292c4f4b0e05d06b2b92e4b48f273dint;
    let v8 = -0x2c336877c6f2c1b0a19722d7a13bf25f13292c4f4b0e05d06b2b92e4b48f273bint;
    let k8 = double_step(p, k7, x7, y7, u8, v8, x8, y8);
    let x9 = 0x6e64e5552b88e48f8ab3c1be8cc36053b0e6ec0831ecbce6fbe2fd29680c969aint;
    let y9 = 0x383c510fa4cb58be6a9dfc9339b85145363911589ec5521025352a647bafd09bint;
    let m9 = 0x5a164fd0bf4602fd4e1560007924b6a147864826663ada9e9e731c946f1338aint;
    let u9 = 0x3d7dfd6b69e45549cbcb2632b6e017cae6b79c098c9236a1fc6969f01858ba65int;
    let v9 = -0x3d7dfd6b69e45549cbcb2632b6e017cae6b79c098c9236a1fc6969f01858ba63int;
    let k9 = add_step(p, e, bx, by, k8, x8, y8, m9, u9, v9, x9, y9);
    let x10 = 0x655bb5ca314a7e2346f7896f50f3a0f4b83647cf80e5bcd0bf7f35ce7fdec499int;
    let y10 = 0x20f486aa7d4091f322075dc1654fb220af4386bf06e5ff04ef74d5ead3313afbint;
    let u10 = 0x133458c00e8fa2344e2a8a841ecba88d0af2a4adfdb8e6a054a36942565f1b0fint;
    let v10 = -0x133458c00e8fa2344e2a8a841ecba88d0af2a4adfdb8e6a054a36942565f1b0dint;
    let k10 = double_step(p, k9, x9, y9, u10, v10, x10, y10);
    let x11 = 0x6f74b17702a52b46d272a98a0fc7ed4326826ac719d2e86d00bc54bb1079321bint;
    let y11 = 0x5b65c7fc4d7ed02c667f72e5edd20d1ff2aa053c2b584dda59a13834dcaec477int;
    let u11 = 0x319dd30b52773c251059f217b9da63729d12f22a83f9139996c9e9fffc6c6a86int;
    let v11 = -0x319dd30b52773c251059f217b9da63729d12f22a83f9139996c9e9fffc6c6a84int;
    let k11 = double_step(p, k10, x10, y10, u11, v11, x11, y11);
    let x12 = 0x7ea78304507728dd99f0086fb9e090c5967f5f6a9c5d8fca0a1ec954baea07cbint;
    let y12 = 0x754069dc0e577bbaa4e6e641df716fef040ad634ffe944b8a97b3eb227cdd25fint;
    let m12 = 0x217573ec6d21d31599f8f67d7d442f1cd2ac49511d337ac6340a0571aa3a4927int;
    let u12 = 0x76356b72613509be93230a2ffd23e9859794ef7e16a1d20194a5d2fdd5f7b44eint;
    let v12 = -0x76356b72613509be93230a2ffd23e9859794ef7e16a1d20194a5d2fdd5f7b44cint;
    let k12 = add_step(p, e, bx, by, k11, x11, y11, m12, u12, v12, x12, y12);
}

proof fn lemma_chain_11()
    requires
        multiple(0x400000000000000000000000000000005int, 0x7ea78304507728dd99f0086fb9e090c5967f5f6a9c5d8fca0a1ec954baea07cbint, 0x754069dc0e577bbaa4e6e641df716fef040ad634ffe944b8a97b3eb227cdd25fint),
    ensures
        multiple(0x40000000000000000000000000000000537int, 0x7980936fd2e9a76cc798cbda2fc0ad541ec2744d12406939d7d51661a917c09cint, 0x56d7d0975cf23a5ebb1b401d8d85891975b35e446b561079dfab669827faf080int),
{
    let p = 0x7fffffffffffffffffffffffffffffffffffffffffffffffffffffffffffffedint;
    let e = 0x3788bdb44f8632d42d0dbee5eea1acc6136cf411e655624f55e48902c3bd5534int;
    let bx = 0x216936d3cd6e53fec0a4e231fdd6dc5c692cc7609525a7b2c9562d608f25d51aint;
    let by = 0x6666666666666666666666666666666666666666666666666666666666666658int;
    lemma_base();
    let x0 = 0x7ea78304507728dd99f0086fb9e090c5967f5f6a9c5d8fca0a1ec954baea07cbint;
    let y0 = 0x754069dc0e577bbaa4e6e641df716fef040ad634ffe944b8a97b3eb227cdd25fint;
    let k0 = 0x400000000000000000000000000000005int;
    let x1 = 0x2a43c009484b1faaf8dede6f6fe34d7fa6748fc3f5026e350d124f34823d3f0bint;
    let y1 = 0x3859dc451e6c19be1d7aa2a00dccafda2c2b74c58bf065827d8cdf29dcfe3f77int;
    let u1 = 0x5e823b79b87e66200fa08e69122f0e1656aba4b32829421744929ca9e903c113int;
    let v1 = -0x5e823b79b87e66200fa08e69122f0e1656aba4b32829421744929ca9e903c111int;
    let k1 = double_step(p, k0, x0, y0, u1, v1, x1, y1);
    let x2 = 0x28e5aeef868576117d40fba6d18148a6057ad9fbe8de8d038e2742ded97176f5int;
    let y2 = 0x5b43a4a02f8caf711a26c0bef6bb06a23c670402778b076de5637978022a0142int;
    let u2 = 0x59ea90b96362241dde6635743697d79b2c25d9eb12172accf0326dad1ccf5649int;
    let v2 = -0x59ea90b96362241dde6635743697d79b2c25d9eb12172accf0326dad1ccf5647int;
    let k2 = double_step(p, k1, x1, y1, u2, v2, x2, y2);
    let x3 = 0x20534e2733b0702e18c1cf7347d3802dc151b2a2422b0bf8700dbd72cf0c36baint;
    let y3 = 0x4b080f81fc24a4b4bddde36fd00fde71c96627045563014bb46fb9a40a81ad98int;
    let u3 = 0x3fc0eb4baed64318acf4f6ab21b70034c8595b37ee357e213aabaee83345f762int;
    let v3 = -0x3fc0eb4baed64318acf4f6ab21b70034c8595b37ee357e213aabaee83345f760int;
    let k3 = double_step(p, k2, x2, y2, u3, v3, x3, y3);
    let x4 = 0x3da2243ef89251b09e7cee395bd3fdfd30af1f0cc7e64b068ba2ff4286332cb2int;
    let y4 = 0x7cdeed1ac6878e126050b669a1890ac633a19abdd173c2f345c811c0b875defbint;
    let m4 = 0x6b4fa255a3815862d796553445b86f8eb4ff4db9e86f10c10caebd5ac401632dint;
    let u4 = 0xbe3ee5c5c5fbaee20c37c6345060d6f7f9ec23604ab9e3fec0b9181708879f4int;
    let v4 = -0xbe3ee5c5c5fbaee20c37c6345060d6f7f9ec23604ab9e3fec0b9181708879f2int;
    let k4 = add_step(p, e, bx, by, k3, x3, y3, m4, u4, v4, x4, y4);
    let x5 = 0xfe09c4a8900e544e936020958905235ee23b83397332e7ab5fefba57ac0402eint;
    let y5 = 0x4299e44eb98bd72ecc4eaa24a5a639e68119abebd0d61fdc5e3c51a8b5802b41int;
    let u5 = 0x7fb24591f46cc341e7d80d9fc1b2b9c1d11bed1a8e84e25e166b68e52958d27int;
    let v5 = -0x7fb24591f46cc341e7d80d9fc1b2b9c1d11bed1a8e84e25e166b68e52958d25int;
    let k5 = double_step(p, k4, x4, y4, u5, v5, x5, y5);
    let x6 = 0x7b0e8f22ec1f580d7746e9ac14a54c4bb3c96651de1465c7a85fc4719c902da0int;
    let y6 = 0x5cc0a11e4922a9c9049045bdfe524f051a0fb0ed5379e82be46378ac5dc3af91int;
    let m6 = 0x4fd3297160a16f60e6b52ff795933a7329f8088a55b20dbc222031d82349bed8int;
    let u6 = 0x4efedc33d3634a5f4b191bae8880124234a1a44a3d704aa7b575b8c234d9deb6int;
    let v6 = -0x4efedc33d3634a5f4b191bae8880124234a1a44a3d704aa7b575b8c234d9deb4int;
    let k6 = add_step(p, e, bx, by, k5, x5, y5, m6, u6, v6, x6, y6);
    let x7 = 0x643dc8dd49e334554c4b0b59d8dcf2974f418d855fa70bbf909e3f04fb850c12int;
    let y7 = 0x315d19b6b2c4a49854d8f1959a2a7f7935ce655528bcf5d7379b14fd59567aint;
    let u7 = 0x6ea342e5fe99e8cfbc5017edc0da63fb033a36d74bf9b25ec743f24a36325021int;
    let v7 = -0x6ea342e5fe99e8cfbc5017edc0da63fb033a36d74bf9b25ec743f24a3632501fint;
    let k7 = double_step(p, k6, x6, y6, u7, v7, x7, y7);
    let x8 = 0x53acae5d55e1d02f8f6ef96823c2b53d34dde4819df21d4a0039546702e6bac1int;
    let y8 = 0x7b00c34a2cb493c70fe411b4661dc1885d91bebe3bc2d3ac64de9a116e441345int;
    let u8 = 0x4c1f5fedad7e294bc17660b65b8d1284ba7c9b08cc307481f94904ed58b843eaint;
    let v8 = -0x4c1f5fedad7e294bc17660b65b8d1284ba7c9b08cc307481f94904ed58b843e8int;
    let k8 = double_step(p, k7, x7, y7, u8, v8, x8, y8);
    let x9 = 0x7f39e0519cde34ef435ce2a7be21029b6cf1de4d3f3113ba6b374d3672ce185cint;
    let y9 = 0x4ee68e54e99b5679cd29b673be7e929a4861e4b905d3dacc5424e7f8c8753ba1int;
    let m9 = 0x1e650d3c9e8446d2fde051016fc101473190098bfbd1525047961c8dd7535fa7int;
    let u9 = 0xb7c2ae3f79242bc0128988b528dd185c878eef30ad79c69b403a73fd0bf2414int;
    let v9 = -0xb7c2ae3f79242bc0128988b528dd185c878eef30ad79c69b403a73fd0bf2412int;
    let k9 = add_step(p, e, bx, by, k8, x8, y8, m9, u9, v9, x9, y9);
    let x10 = 0x386390cb42af5106c2a40ede0dd0348e110822c6bc696c39aae277271648a1fdint;
    let y10 = 0x17f3f9fbd70e2c8a0da707569cb9cf4c0c55713632fe542d1a5a182849fd5343int;
    let u10 = 0x1d44dd6ccfd6a53bc79c812df21826315fa9bf0dc8c926c1976e82634da37c2int;
    let v10 = -0x1d44dd6ccfd6a53bc79c812df21826315fa9bf0dc8c926c1976e82634da37c0int;
    let k10 = double_step(p, k9, x9, y9, u10, v10, x10, y10);
    let x11 = 0xd28853409e53c624231ca29326c0a8ccbcd4813f5982fecbb8d229daa062eceint;
    let y11 = 0xd90c94ed07eaacf34f572f11590d0d6bba45c49f2f3a6075de2061325dc961int;
    let m11 = 0x7351384eeff96f761bb76af5df4bd866c1bbbd345339fcd585c4a8b97afa37d4int;
    let u11 = 0x7ecba961efa966cf1ddada651ee64147a66aaf206e0421e200d119e8e54f3b9dint;
    let v11 = -0x7ecba961efa966cf1ddada651ee64147a66aaf206e0421e200d119e8e54f3b9bint;
    let k11 = add_step(p, e, bx, by, k10, x10, y10, m11, u11, v11, x11, y11);
    let x12 = 0x5726fee7ef018270c59e2b246f1e34e4e90f5116198f4a9979700ffdcaabf2bcint;
    let y12 = 0x7e9a0dc8e79f3f36d874344ac03a454d24aaf22f0ee85984cf0cc982f9cecd8fint;
    let u12 = 0x233657742d8cab43715afc4fdf07a840efdd47fb0f625fd93be1b545e7616464int;
    let v12 = -0x233657742d8cab43715afc4fdf07a840efdd47fb0f625fd93be1b545e7616462int;
    let k12 = double_step(p, k11, x11, y11, u12, v12, x12, y12);
    let x13 = 0x7980936fd2e9a76cc798cbda2fc0ad541ec2744d12406939d7d51661a917c09cint;
    let y13 = 0x56d7d0975cf23a5ebb1b401d8d85891975b35e446b561079dfab669827faf080int;
    let m13 = 0x571d65030f620059bbb643e8e3553acdaba53e8bca814f19776344812714be71int;
    let u13 = 0x20f66a5ad1869970d3b174dbfcc0d8908ebf34de078b8941f93955c072fa6cf0int;
    let v13 = -0x20f66a5ad1869970d3b174dbfcc0d8908ebf34de078b8941f93955c072fa6ceeint;
    let k13 = add_step(p, e, bx, by, k12, x12, y12, m13, u13, v13, x13, y13);
}

proof fn lemma_chain_12()
    requires
        multiple(0x40000000000000000000000000000000537int, 0x7980936fd2e9a76cc798cbda2fc0ad541ec2744d12406939d7d51661a917c09cint, 0x56d7d0975cf23a5ebb1b401d8d85891975b35e446b561079dfab669827faf080int),
    ensures
        multiple(0x2000000000000000000000000000000029bdfint, 0x146be1e7c9c842667a027ed3b759ccf6b654619648cbdad381480e7d1928b259int, 0x765b7ebd7c185fdc3a12783d1239fc08a63022ca9e2305a7629225ad977a404cint),
{
    let p = 0x7fffffffffffffffffffffffffffffffffffffffffffffffffffffffffffffedint;
    let e = 0x3788bdb44f8632d42d0dbee5eea1acc6136cf411e655624f55e48902c3bd5534int;
    let bx = 0x216936d3cd6e53fec0a4e231fdd6dc5c692cc7609525a7b2c9562d608f25d51aint;
    let by = 0x6666666666666666666666666666666666666666666666666666666666666658int;
    lemma_base();
    let x0 = 0x7980936fd2e9a76cc798cbda2fc0ad541ec2744d12406939d7d51661a917c09cint;
    let y0 = 0x56d7d0975cf23a5ebb1b401d8d85891975b35e446b561079dfab669827faf080int;
    let k0 = 0x40000000000000000000000000000000537int;
    let x1 = 0x3f016a3cdc96dd4c45be8112d11bcdbef08a05ab0b58e4a185f58ad077459e28int;
    let y1 = 0x496c0e2d109314b8493dfbdfab624bfbbb81cc16fffca2ed3e455271a68e0f29int;
    let u1 = 0x60b4ecbccd4fe225f5d1ec9f03ddf58bb1c5df344de15e22aa629168a11fff36int;
    let v1 = -0x60b4ecbccd4fe225f5d1ec9f03ddf58bb1c5df344de15e22aa629168a11fff34int;
    let k1 = double_step(p, k0, x0, y0, u1, v1, x1, y1);
    let x2 = 0x6961aaab37b03f1cfe2d3daf27a84a48d4d88a5f88cccfc80bd2ab34ac1dba56int;
    let y2 = 0x5a71785d54b24bf8d1248aa4725d8c5c82e1ccddb29e9a0b0de92fc212c9fb2cint;
    let m2 = 0x258d44b5f0df830f7e4ad458a51e5ca309acadbeef53ffcdde32e4be8d522647int;
    let u2 = 0x40bf0eab10d7f2c861b2ddca895486f15d812c9484e87564da9fcfd8cfbb0575int;
    let v2 = -0x40bf0eab10d7f2c861b2ddca895486f15d812c9484e87564da9fcfd8cfbb0573int;
    let k2 = add_step(p, e, bx, by, k1, x1, y1, m2, u2, v2, x2, y2);
    let x3 = 0x75332bce246d8bfd0c9cba7fb512cd55ca2b8f98f16a2255430271d0a9e24fb0int;
    let y3 = 0x2766fdc8090fb8179e50f8965d28faa5dc7dc634642db9d90c514e6749d80076int;
    let u3 = 0x33a2cab8614de0db362cc2af0305826b10f87b5967b801b7a9b50e89a4942a3dint;
    let v3 = -0x33a2cab8614de0db362cc2af0305826b10f87b5967b801b7a9b50e89a4942a3bint;
    let k3 = double_step(p, k2, x2, y2, u3, v3, x3, y3);
    let x4 = 0x1339f6e2373d1c5bcf2d2d5ba09e8d5bfe4ce052451128b6060643380649df1aint;
    let y4 = 0x6e5a9a384767243dab4263da05cdfe19b56ba6902f7f72fb9f9fcca97fa38d19int;
    let u4 = 0x5796fb2fcfe5b1774b26e663715d17b63a84c0cdc7e0815db11c1fd91c86dd40int;
    let v4 = -0x5796fb2fcfe5b1774b26e663715d17b63a84c0cdc7e0815db11c1fd91c86dd3eint;
    let k4 = double_step(p, k3, x3, y3, u4, v4, x4, y4);
    let x5 = 0x2c395471af15289624772acf3f8859140c9cbaa4cbd9f25e1a4b8ea3fe5d79beint;
    let y5 = 0x5c37f6bcfead4fe91825b4e540d1687dda71fcd367e3c064f425e4e36a8f5f09int;
    let m5 = 0x4f8c09e40eb9d48576642e85f3003b64714df8682ee3b8c2968bb61a6d1daa8eint;
    let u5 = 0x40d0d71655c1a3d38622b69cff46f3d243f7829e797da08795d39a1745e2934aint;
    let v5 = -0x40d0d71655c1a3d38622b69cff46f3d243f7829e797da08795d39a1745e29348int;
    let k5 = add_step(p, e, bx, by, k4, x4, y4, m5, u5, v5, x5, y5);
    let x6 = 0x6aebcef8f5a4418a25cf5451bc8a5b41cdaa69a6434a571fa0528223283ca351int;
    let y6 = 0x3fc8881da7870cfa0a62097c2971fad129cfaea920134d649fa976768dffadc3int;
    let u6 = 0x2b7304462632abfd9794bbee9ff490af495d1fa5bc3abd7232ac37a21337e4d6int;
    let v6 = -0x2b7304462632abfd9794bbee9ff490af495d1fa5bc3abd7232ac37a21337e4d4int;
    let k6 = double_step(p, k5, x5, y5, u6, v6, x6, y6);
    let x7 = 0xe6c87d81d9521f5015a9a65139d734aae08d33f7c5745783ef7d1c16570a5b3int;
    let y7 = 0x48449d43dd0f9b77425847e89acbca4a776e41ed2fd9f69e6a166fbc19206192int;
    let m7 = 0x28760e186ad0b4eca1a7794074e1d95a41fd210cc47f1f850a3f1f20146adc7dint;
    let u7 = 0x283de0a823ee03339e12be68074382feca3ab85828fe477a9f8bc54604847b38int;
    let v7 = -0x283de0a823ee03339e12be68074382feca3ab85828fe477a9f8bc54604847b36int;
    let k7 = add_step(p, e, bx, by, k6, x6, y6, m7, u7, v7, x7, y7);
    let x8 = 0x2b9b50f1a05d46fc2750d2cb6a3fabf589ebe119d644862ac86a8e585d59156eint;
    let y8 = 0x2f191a82ee304a455cc5586a8ebd45cd9fec3e5e4a7a8f63c92287ca7ad5d87cint;
    let u8 = 0x3b68094f76434957fd827ee344e14ba966ad53cb010d7e1f806c85a1c9969d1dint;
    let v8 = -0x3b68094f76434957fd827ee344e14ba966ad53cb010d7e1f806c85a1c9969d1bint;
    let k8 = double_step(p, k7, x7, y7, u8, v8, x8, y8);
    let x9 = 0xc9a58ff11b3b5a52e525da407e3f53b3f36591dd2e1a73745c5c28aa541e1fcint;
    let y9 = 0x7c7f39fab1ca12c5e9189c9212bea9a5c5304f87c76d11885cfe44c8fa32949dint;
    let m9 = 0x663f9dcad4845dbfa76329f966398d32ba55b4adbae6c2565e48294d683a8db5int;
    let u9 = 0x1e01208d59018d2cb8e774a6c20f72385c54271cdb4c436e803cb4717b198b89int;
    let v9 = -0x1e01208d59018d2cb8e774a6c20f72385c54271cdb4c436e803cb4717b198b87int;
    let k9 = add_step(p, e, bx, by, k8, x8, y8, m9, u9, v9, x9, y9);
    let x10 = 0x68628e04ca4acc4de56208b8295399a2cd8a593de527073a1611af7c3f5e35a4int;
    let y10 = 0x55ea167cd0f2c2532ceae3934da1bd643a6788197660620a3db07bf8bc30894int;
    let u10 = 0x7cfebf61f1c8bad04115fca2b34176ca41abc5d0c9422cdba785d8a5ed6c85d5int;
    let v10 = -0x7cfebf61f1c8bad04115fca2b34176ca41abc5d0c9422cdba785d8a5ed6c85d3int;
    let k10 = double_step(p, k9, x9, y9, u10, v10, x10, y10);
    let x11 = 0x1c08aa4b58e3694f3479b6cca3d7ebc1f5ce7c7be450eaa3c0e722c9ef341800int;
    let y11 = 0x4088acf7361fda921091fa4070cfba9bf90c39710760219062ecc1a30a4f85caint;
    let m11 = 0x87913014a0a5b92742efa9f49c619a34b0d920e33aa1e6d7e8cd33fb1512b1dint;
    let u11 = 0x16420964e9aceef8c69e4dbc6d90f404441f554b9730717312c5b7fd869da6c3int;
    let v11 = -0x16420964e9aceef8c69e4dbc6d90f404441f554b9730717312c5b7fd869da6c1int;
    let k11 = add_step(p, e, bx, by, k10, x10, y10, m11, u11, v11, x11, y11);
    let x12 = 0x793118b0db982ec4c67f9ddd89cf43fa07f5c4e1356ccd7b15bc44c7cc07d139int;
    let y12 = 0x23d62511a462a1480c21e2682985d4ec9838a6b73e1898f8bf3f9ef6d053e30fint;
    let u12 = 0x65be08ea20c006298606790bfe827e9aa46c470eed9378e43236ce79d156e73cint;
    let v12 = -0x65be08ea20c006298606790bfe827e9aa46c470eed9378e43236ce79d156e73aint;
    let k12 = double_step(p, k11, x11, y11, u12, v12, x12, y12);
    let x13 = 0x146be1e7c9c842667a027ed3b759ccf6b654619648cbdad381480e7d1928b259int;
    let y13 = 0x765b7ebd7c185fdc3a12783d1239fc08a63022ca9e2305a7629225ad977a404cint;
    let m13 = 0x52772419004ab280fc54078fae0ec8cf5d9df8d35ed80b32c6d7f16138a0588dint;
    let u13 = 0x471403f7dea7b26d6c6e91cc478f19cae3ef26cd9f52c8f4a5d3d6dd58964944int;
    let v13 = -0x471403f7dea7b26d6c6e91cc478f19cae3ef26cd9f52c8f4a5d3d6dd58964942int;
    let k13 = add_step(p, e, bx, by, k12, x12, y12, m13, u13, v13, x13, y13);
}

proof fn lemma_chain_13()
    requires
        multiple(0x2000000000000000000000000000000029bdfint, 0x146be1e7c9c842667a027ed3b759ccf6b654619648cbdad381480e7d1928b259int, 0x765b7ebd7c185fdc3a12783d1239fc08a63022ca9e2305a7629225ad977a404cint),
    ensures
        multiple(0x2000000000000000000000000000000029bdf3bint, 0x2577fdea34a5a331f40c8f9b736a9fbdabfd8be7937ebeba839b977aed4bd15eint, 0x47bb03fd9a059ea671af8bf95a24f7480ed51196253207cfb4780f6ba78f34bbint),
{
    let p = 0x7fffffffffffffffffffffffffffffffffffffffffffffffffffffffffffffedint;
    let e = 0x3788bdb44f8632d42d0dbee5eea1acc6136cf411e655624f55e48902c3bd5534int;
    let bx = 0x216936d3cd6e53fec0a4e231fdd6dc5c692cc7609525a7b2c9562d608f25d51aint;
    let by = 0x6666666666666666666666666666666666666666666666666666666666666658int;
    lemma_base();
    let x0 = 0x146be1e7c9c842667a027ed3b759ccf6b654619648cbdad381480e7d1928b259int;
    let y0 = 0x765b7ebd7c185fdc3a12783d1239fc08a63022ca9e2305a7629225ad977a404cint;
    let k0 = 0x2000000000000000000000000000000029bdfint;
    let x1 = 0x488861f17a879db9dd07f3b38084e14834a9ef48b8213696c00dda61bff383d1int;
    let y1 = 0x596fb8cb4a08a38dac0ec16c681d395a2480ed6f83024ff7cbd7ea403238585cint;
    let u1 = 0x307f185a91d2a2627c959f1b41fff4f2127ca3bb035d156ce0316cf0e4d956c3int;
    let v1 = -0x307f185a91d2a2627c959f1b41fff4f2127ca3bb035d156ce0316cf0e4d956c1int;
    let k1 = double_step(p, k0, x0, y0, u1, v1, x1, y1);
    let x2 = 0x7042b73005ce8da92016b918df700d14dcfa978c423e3af01be50e020e76538int;
    let y2 = 0x13cbe68b2e9b83e44d281aecdeda0473dc67a39263e2b3a7bceb982e8b8321b6int;
    let u2 = 0x624af7a31c4c436887ac0ad11e73507118ffc17ef54b4ce777b45dc302426cbint;
    let v2 = -0x624af7a31c4c436887ac0ad11e73507118ffc17ef54b4ce777b45dc302426c9int;
    let k2 = double_step(p, k1, x1, y1, u2, v2, x2, y2);
    let x3 = 0xaffe8da3ef744135a1c5c7717c9e224eab9a9e0e5e97ee8e2aa1b744089b380int;
    let y3 = 0x4fe1376b3b146f90ff3f445084fa94d9c8ce2a05a1d7d25fda2b26dce231094cint;
    let u3 = 0x53d72c4b039be08277f21d284fcf35d8f0fc3f46c769ee879d8c216aa8260f79int;
    let v3 = -0x53d72c4b039be08277f21d284fcf35d8f0fc3f46c769ee879d8c216aa8260f77int;
    let k3 = double_step(p, k2, x2, y2, u3, v3, x3, y3);
    let x4 = 0x9f00a580ed6c398da955eb2d9cdb9b8cfb11a54a2cc76b1a99b7285b07699c0int;
    let y4 = 0x2a14b220b33d055d2adec71b5b1d3b5accbe7feae883fe5d739777b2d9b5d27cint;
    let m4 = 0x28b6a802a547768ea924a7a03bcb265682f5739b1aac7a40e5281696ea761bc1int;
    let u4 = 0x29b55ed65b94d5423bdac74fd0d95d4a7cb3d24cdc0c69616a20772f324d2722int;
    let v4 = -0x29b55ed65b94d5423bdac74fd0d95d4a7cb3d24cdc0c69616a20772f324d2720int;
    let k4 = add_step(p, e, bx, by, k3, x3, y3, m4, u4, v4, x4, y4);
    let x5 = 0x5e7be391ecd0bafd9e18843dcb7efcf9be85a1d5489568aedf9336673d14a773int;
    let y5 = 0x52b870ab3479404c390697f20e1bf88e184714a9f2b29ebe956885b1eed4bc74int;
    let u5 = 0xb5b179b0dd7abd346c21420418e714f244d8eb201dfa717cb934a6fa53e99b3int;
    let v5 = -0xb5b179b0dd7abd346c21420418e714f244d8eb201dfa717cb934a6fa53e99b1int;
    let k5 = double_step(p, k4, x4, y4, u5, v5, x5, y5);
    let x6 = 0x3dc2ea0ebacc76dae04804e8bdd85d6794412ff27e3e1a15aed3984a215b112int;
    let y6 = 0x3ce96d976429d5a4fe155b891c79ec365ed5347333b8a3fd2b4072f131ac8fd6int;
    let m6 = 0x423ff33dc8a5e73df95098693b751f5925fa762a546204b4f79c5dab3877a1b7int;
    let u6 = 0x5a2dcd5899dadb4e07254a4e354ee660c9cc4bc472d49f22493b57578d55de3int;
    let v6 = -0x5a2dcd5899dadb4e07254a4e354ee660c9cc4bc472d49f22493b57578d55de1int;
    let k6 = add_step(p, e, bx, by, k5, x5, y5, m6, u6, v6, x6, y6);
    let x7 = 0xdfbe220d1cc8e4a6c76023936f511aff6ba542a4ea24a0baf0ff1aa8756245bint;
    let y7 = 0x51d4aac3124d2f6f0fdf823c35ea01018cb85cf19ad19d4bacc4f5a07856341aint;
    let u7 = 0x50b0bdfc738e02745b68f090cee67242f8740e51a24e2d9791dfe35ce2034fe6int;
    let v7 = -0x50b0bdfc738e02745b68f090cee67242f8740e51a24e2d9791dfe35ce2034fe4int;
    let k7 = double_step(p, k6, x6, y6, u7, v7, x7, y7);
    let x8 = 0x6aba23904b5fa5eb01b3784da461d00839d1af16b178255c3e579464ff296d12int;
    let y8 = 0x40e3440c12b732df1f314735932f39fb016a20672461d738e44a6b873b71fc72int;
    let m8 = 0x2e153f21156f264b746f3a89b75eb24bddb0854ece3f171354d8b57ea83eb763int;
    let u8 = 0x17421046ad4c237cdc114f3178c39c1d654dd7b2584a41366bba7b65db881cint;
    let v8 = -0x17421046ad4c237cdc114f3178c39c1d654dd7b2584a41366bba7b65db881aint;
    let k8 = add_step(p, e, bx, by, k7, x7, y7, m8, u8, v8, x8, y8);
    let x9 = 0x499ebf17c701f417859f04568833f6f35cc7443cf653be53ddb54b6b00a077ffint;
    let y9 = 0x3bc5d5a837ee0af8785449f91d8ae088c09f7de6a4a618a0a45d5287cc2e3e71int;
    let u9 = 0x1e7d04baa99eb03afdb01c7957327ebcbe21a6a26b8beba7d5c56e609861e220int;
    let v9 = -0x1e7d04baa99eb03afdb01c7957327ebcbe21a6a26b8beba7d5c56e609861e21eint;
    let k9 = double_step(p, k8, x8, y8, u9, v9, x9, y9);
    let x10 = 0x2ea68a6d6961e487b1bbb7c94b807e8628b45a5fef3ec47944231dc69667b172int;
    let y10 = 0xf66975ab48f65c8aba128a65a0dfa83f04a6008d3c0689485e9070e5269de24int;
    let u10 = 0x5c88ff41ad59bb545e5113cb1d7cadea2b3576460de27e6f69f6559f20d941acint;
    let v10 = -0x5c88ff41ad59bb545e5113cb1d7cadea2b3576460de27e6f69f6559f20d941aaint;
    let k10 = double_step(p, k9, x9, y9, u10, v10, x10, y10);
    let x11 = 0x7f5192f483252e208b643b61e187013608693bd61087fff4951f925426fc37aeint;
    let y11 = 0xd2b31ac34a0860c2fa7e82446e07ce21ff96512c04486c9ea72b3f2d66bad4fint;
    let m11 = 0x5d164a156b5dfce18e08aadd3e319a2fb7ac438be6019354a6c128bed0dd11f8int;
    let u11 = 0x4420cbe52a1ad713ae8bee773a00410d8a9eee4949da7f3f7e74f42b45ec1d48int;
    let v11 = -0x4420cbe52a1ad713ae8bee773a00410d8a9eee4949da7f3f7e74f42b45ec1d46int;
    let k11 = add_step(p, e, bx, by, k10, x10, y10, m11, u11, v11, x11, y11);
    let x12 = 0x2187b058d777c336b50d1dd2513885290710c23fe4d72cb5942f864055409d9aint;
    let y12 = 0x76516cf6d4abed511f465417d24ffe5967a32d394479296dc1397ab8db03191bint;
    let u12 = 0x7318a1717b23d6618d544db76d9268863e8ce2d8fd4f18ee6dd1583b7dc11f3aint;
    let v12 = -0x7318a1717b23d6618d544db76d9268863e8ce2d8fd4f18ee6dd1583b7dc11f38int;
    let k12 = double_step(p, k11, x11, y11, u12, v12, x12, y12);
    let x13 = 0x2577fdea34a5a331f40c8f9b736a9fbdabfd8be7937ebeba839b977aed4bd15eint;
    let y13 = 0x47bb03fd9a059ea671af8bf95a24f7480ed51196253207cfb4780f6ba78f34bbint;
    let m13 = 0x74aa7ebd74fa5206375fa355e60e54b28f3287103084aa5c1c77340f73f2769dint;
    let u13 = 0x43082a354263ea52e9ce83cc57f360dc6cf27cde8cd5afb0bed506ccccceb96int;
    let v13 = -0x43082a354263ea52e9ce83cc57f360dc6cf27cde8cd5afb0bed506ccccceb94int;
    let k13 = add_step(p, e, bx, by, k12, x12, y12, m13, u13, v13, x13, y13);
}

proof fn lemma_chain_14()
    requires
        multiple(0x2000000000000000000000000000000029bdf3bint, 0x2577fdea34a5a331f40c8f9b736a9fbdabfd8be7937ebeba839b977aed4bd15eint, 0x47bb03fd9a059ea671af8bf95a24f7480ed51196253207cfb4780f6ba78f34bbint),
    ensures
        multiple(0x2000000000000000000000000000000029bdf3bd4int, 0x18c5bfe58d2c9dd2e8bd77b4d6ea13dcab3a43cffcd0ed8c608bec658d135459int, 0x51acaeb92ff3674031943f0152de2070dbe5e98e57a934c39c276e5ff2b2bb75int),
{
    let p = 0x7fffffffffffffffffffffffffffffffffffffffffffffffffffffffffffffedint;
    let e = 0x3788bdb44f8632d42d0dbee5eea1acc6136cf411e655624f55e48902c3bd5534int;
    let bx = 0x216936d3cd6e53fec0a4e231fdd6dc5c692cc7609525a7b2c9562d608f25d51aint;
    let by = 0x6666666666666666666666666666666666666666666666666666666666666658int;
    lemma_base();
    let x0 = 0x2577fdea34a5a331f40c8f9b736a9fbdabfd8be7937ebeba839b977aed4bd15eint;
    let y0 = 0x47bb03fd9a059ea671af8bf95a24f7480ed51196253207cfb4780f6ba78f34bbint;
    let k0 = 0x2000000000000000000000000000000029bdf3bint;
    let x1 = 0x3cf18e2dd153500ccad31a8f90c97ff317b01cb26a851b45c3da0f76b6c48a52int;
    let y1 = 0x7d1b4243b6ba39fc68c3b0f29c423cab5485d20660af7dd75d6edbca1e8e9abaint;
    let u1 = 0x7d6fe9baa00d112f60d7acd4a835dfc09eaf2e790ff8ed6c8ea8b4f6d7094e2bint;
    let v1 = -0x7d6fe9baa00d112f60d7acd4a835dfc09eaf2e790ff8ed6c8ea8b4f6d7094e29int;
    let k1 = double_step(p, k0, x0, y0, u1, v1, x1, y1);
    let x2 = 0x50e7c2166923aafb603a6a4ec2805efa92782aa176b1cf1d2da6f353d24426e1int;
    let y2 = 0x163f11e23c22179f8054d29a25ca3624a5a18acbf89aa613620114c08a58292eint;
    let m2 = 0x382a4da7d3fe79516cc5ac203a123aea16d57476eb93074381f6e7b429e6b63bint;
    let u2 = 0x22442ffafc3f1477aae9c781c772f90b60497d34b48169f4d80db5e2e20517b3int;
    let v2 = -0x22442ffafc3f1477aae9c781c772f90b60497d34b48169f4d80db5e2e20517b1int;
    let k2 = add_step(p, e, bx, by, k1, x1, y1, m2, u2, v2, x2, y2);
    let x3 = 0x3587cadfee1c6afc1ddf73dd92a62e4eda87ad23b6bb4bec82ce25a94099d83aint;
    let y3 = 0x1d0acffdb0e60311e566c24647610781e190080688a615abcff6e3f9648d02fint;
    let u3 = 0x1bafb3b29088d7ff1d3553264603492987ef69ef1c6f204b0bfc0c821b5a9f76int;
    let v3 = -0x1bafb3b29088d7ff1d3553264603492987ef69ef1c6f204b0bfc0c821b5a9f74int;
    let k3 = double_step(p, k2, x2, y2, u3, v3, x3, y3);
    let x4 = 0x695610990c75daa069c813a631a6061183549d768846962090f79dcaa5dc2be9int;
    let y4 = 0x526e2356b1d33db3ee1e11c8091c11dc69fec730bdd5a0533e450c13a1c7af54int;
    let m4 = 0x28c1c2050bc8a29210d9e787542fc4743369653c7887c08eba575b967b4ffda0int;
    let u4 = 0x7cebd1337fce05e7f1110620214320ac12cd5d2d9a50069476a467503f88ec90int;
    let v4 = -0x7cebd1337fce05e7f1110620214320ac12cd5d2d9a50069476a467503f88ec8eint;
    let k4 = add_step(p, e, bx, by, k3, x3, y3, m4, u4, v4, x4, y4);
    let x5 = 0x23afdf0d6a7e08f389d5a51847ced4f31b415ce3fa76997252d3c8042459fb4bint;
    let y5 = 0x719536c017cfa3c17acee83a1939f41c822b8db2c7ab21ebc87dbe019385bc0aint;
    let u5 = 0x91e8380dec743da9c42853ca79a805ea2246a30cd274a5b05ad9d51faf82b40int;
    let v5 = -0x91e8380dec743da9c42853ca79a805ea2246a30cd274a5b05ad9d51faf82b3eint;
    let k5 = double_step(p, k4, x4, y4, u5, v5, x5, y5);
    let x6 = 0x28673d4d20fa9c1da7a7d66b9bd72bb8aaccc5b432cb4fe440aa9ec94d5e4855int;
    let y6 = 0x7605e384da666ce248309556829eb2a885b2150c839606128462591cbea71253int;
    let u6 = 0xe59788ad049ca7429a3c2dc22877d49f9bde8c0dc733fbd410ac046de96fdbfint;
    let v6 = -0xe59788ad049ca7429a3c2dc22877d49f9bde8c0dc733fbd410ac046de96fdbdint;
    let k6 = double_step(p, k5, x5, y5, u6, v6, x6, y6);
    let x7 = 0x9c650e9b54c7826b4cd04df52d3d23aa6117e9577163ef05d70db1da2639730int;
    let y7 = 0x29be7d8f82a6e39497d940ec819200e8771bd3e38cbeae5fba82543443a2f1e3int;
    let m7 = 0x4714373ef36369ab5fd2e32da47731244f6fe73b6c6adea6421477191ffe76d7int;
    let u7 = 0x1c0a1722d880394036499f6f326cb8731656979952b9fbc8af1cb5d27360c9c0int;
    let v7 = -0x1c0a1722d880394036499f6f326cb8731656979952b9fbc8af1cb5d27360c9beint;
    let k7 = add_step(p, e, bx, by, k6, x6, y6, m7, u7, v7, x7, y7);
    let x8 = 0x525144e31ba2780a6d75ce270b192f93323f054e3a056b1ef74ed24c0ae66c78int;
    let y8 = 0x4ef69da42f8419babf6cb6c5c20e3b913d8e6bf49649fbfb2f5d331c91d742d8int;
    let u8 = 0x113c77d0fb9f70dfdd678e3a715e91c54297a68b5726ec3b3d54d2ccc7c34dd8int;
    let v8 = -0x113c77d0fb9f70dfdd678e3a715e91c54297a68b5726ec3b3d54d2ccc7c34dd6int;
    let k8 = double_step(p, k7, x7, y7, u8, v8, x8, y8);
    let x9 = 0x35465809ad5def171b2bfb58124e015b3a36aaca987e41b85e8da5afd60da6eeint;
    let y9 = 0x6bfab84c52496b9239191da5df149a62d6afdeac84cc586bd8bcdfd641fa0c30int;
    let u9 = 0x44c939009e9808c66cb03ecbd49f9df7fe5c6c8bb04ee67af059af599b83c65fint;
    let v9 = -0x44c939009e9808c66cb03ecbd49f9df7fe5c6c8bb04ee67af059af599b83c65dint;
    let k9 = double_step(p, k8, x8, y8, u9, v9, x9, y9);
    let x10 = 0xfb308074d5c933379d5a7235fb5c36717668e748ee8c9ab3485ae054b0aefceint;
    let y10 = 0x377e44a7603f8631565afac9f1e95368f51348484c1b83367c8d662d86b90ae5int;
    let m10 = 0x4acaf42ef127626c63fc1a8bfcbcc24b71e990656a681f893373abea8c6dc5c9int;
    let u10 = 0x40ced35e5c33c82a4ba53226f3c80afd803d22a6c28ff3d07e82b3c1572ca08cint;
    let v10 = -0x40ced35e5c33c82a4ba53226f3c80afd803d22a6c28ff3d07e82b3c1572ca08aint;
    let k10 = add_step(p, e, bx, by, k9, x9, y9, m10, u10, v10, x10, y10);
    let x11 = 0x76145e80bd944d3b04b759c1ad23a0bb149d0a3d63878e4bbf90aa12d12533b1int;
    let y11 = 0x3a8d4a424e897751a95f74c919a41bd7198083b11858e603989d2d52c2d965e3int;
    let u11 = 0x199eed85b46447744ec69e1829c8a238506b179298e055b50405d5a0a45b65e9int;
    let v11 = -0x199eed85b46447744ec69e1829c8a238506b179298e055b50405d5a0a45b65e7int;
    let k11 = double_step(p, k10, x10, y10, u11, v11, x11, y11);
    let x12 = 0x18c5bfe58d2c9dd2e8bd77b4d6ea13dcab3a43cffcd0ed8c608bec658d135459int;
    let y12 = 0x51acaeb92ff3674031943f0152de2070dbe5e98e57a934c39c276e5ff2b2bb75int;
    let u12 = 0x818f1662753291d41a24bcedcf462cd61939f490176bc722a63e03f34b1dea7int;
    let v12 = -0x818f1662753291d41a24bcedcf462cd61939f490176bc722a63e03f34b1dea5int;
    let k12 = double_step(p, k11, x11, y11, u12, v12, x12, y12);
}

proof fn lemma_chain_15()
    requires
        multiple(0x2000000000000000000000000000000029bdf3bd4int, 0x18c5bfe58d2c9dd2e8bd77b4d6ea13dcab3a43cffcd0ed8c608bec658d135459int, 0x51acaeb92ff3674031943f0152de2070dbe5e98e57a934c39c276e5ff2b2bb75int),
    ensures
        multiple(0x1000000000000000000000000000000014def9dea2fint, 0x63a653cf225b7d8b742be2e38160d5436c54479fff964ff2a32adcb7b3aa7430int, 0x753a3483e7d0e045ac001ade2d762a62ba6cb8ea8cccc30f764d98d937eb76eint),
{
    let p = 0x7fffffffffffffffffffffffffffffffffffffffffffffffffffffffffffffedint;
    let e = 0x3788bdb44f8632d42d0dbee5eea1acc6136cf411e655624f55e48902c3bd5534int;
    let bx = 0x216936d3cd6e53fec0a4e231fdd6dc5c692cc7609525a7b2c9562d608f25d51aint;
    let by = 0x6666666666666666666666666666666666666666666666666666666666666658int;
    lemma_base();
    let x0 = 0x18c5bfe58d2c9dd2e8bd77b4d6ea13dcab3a43cffcd0ed8c608bec658d135459int;
    let y0 = 0x51acaeb92ff3674031943f0152de2070dbe5e98e57a934c39c276e5ff2b2bb75int;
    let k0 = 0x2000000000000000000000000000000029bdf3bd4int;
    let x1 = 0x70dc9136f5e352f230cbdd689ae7d73d1ec8b4d6bf4d5888a180d27186a88c6aint;
    let y1 = 0x4ce7b00ace68ed9a47f6207b7d268b851bcbd00bc04a3d7e54b9f353f4725665int;
    let u1 = 0x142e59e28a59bf4d0a7e512fe8b5f8c4d2ed0e0e07f0e2056aa1b513436266b5int;
    let v1 = -0x142e59e28a59bf4d0a7e512fe8b5f8c4d2ed0e0e07f0e2056aa1b513436266b3int;
    let k1 = double_step(p, k0, x0, y0, u1, v1, x1, y1);
    let x2 = 0x55007a544e5d576ea1427178a016552da596fd942529c042a7fca6e918add5e2int;
    let y2 = 0x5f910ff923bdfca6902c2c387a9fc7ac792699e52331aca00e6c0c9cf1635816int;
    let u2 = 0x7df44dda29a125a70c942eccd5134e8a7a72ea8d0c7b2327311d06f7d1566834int;
    let v2 = -0x7df44dda29a125a70c942eccd5134e8a7a72ea8d0c7b2327311d06f7d1566832int;
    let k2 = double_step(p, k1, x1, y1, u2, v2, x2, y2);
    let x3 = 0x5026ad788f22f5ea5eb0e97d5daf3e4c91d11a375cfcc6539dc67b61b2e2cab6int;
    let y3 = 0x546a8facb0ff81e8d4b0705a56ac4d945af6f7b101a6a82025249947bc24436dint;
    let m3 = 0x530be72f22770fbbdc3f0572839c4b3ed5e78e687ae4b67fe6568846b890be4bint;
    let u3 = 0x23ffb55a935d9c4173cd4cfde544749cf190640a4ab6179b75357425268e7c63int;
    let v3 = -0x23ffb55a935d9c4173cd4cfde544749cf190640a4ab6179b75357425268e7c61int;
    let k3 = add_step(p, e, bx, by, k2, x2, y2, m3, u3, v3, x3, y3);
    let x4 = 0x50a1651217095ca7c7e12be84e5ac03f02b688c8698c6d5fdb926f121027b1cbint;
    let y4 = 0x1f977756bf05d410953d32a2424b8de89f18ede292a61057f728943270dca2a8int;
    let u4 = 0x1f7990f571546b58f0149aaf1b9ec54974c216df608608770a6b056006e55188int;
    let v4 = -0x1f7990f571546b58f0149aaf1b9ec54974c216df608608770a6b056006e55186int;
    let k4 = double_step(p, k3, x3, y3, u4, v4, x4, y4);
    let x5 = 0x5020a6fea0c7b8fb798c17dd325a8e52897fe66f911c8e52d1d04a8c51f78c81int;
    let y5 = 0x32692a0d9f6fb215678b85b7193936a23c6f44c7df6e12a0c488d03d8bd589e4int;
    let u5 = 0x7ca80f1c2cf521077428fb803cb975cc80a206165b821a7e6acafded3b10d14dint;
    let v5 = -0x7ca80f1c2cf521077428fb803cb975cc80a206165b821a7e6acafded3b10d14bint;
    let k5 = double_step(p, k4, x4, y4, u5, v5, x5, y5);
    let x6 = 0x27bf02a76346800c883976e2ef60fe0bb4f6b8b67ca8e35ddb7c1f1b4c19e0c7int;
    let y6 = 0x34af30160732015d1afb7d6bb862609c6d7196ab27f6b2d4910969dee64f009dint;
    let m6 = 0x4096f68ffee5d0dcfa8d9bf08696730487b61e39d4a5bbb68f185e56344700faint;
    let u6 = 0x1a53f3f497fa9060275019443e49530a9616a89b10139ec668d2b7269031c610int;
    let v6 = -0x1a53f3f497fa9060275019443e49530a9616a89b10139ec668d2b7269031c60eint;
    let k6 = add_step(p, e, bx, by, k5, x5, y5, m6, u6, v6, x6, y6);
    let x7 = 0x6a37919d70889f4485b5bc45095260c5f887ea7dcbead2d0f0925040b8405b65int;
    let y7 = 0x3e117f6c4ce6a75beed28d59f25fa33384cf7e767b341c9109d5b2ca99f14058int;
    let u7 = 0x1c558135167912a073c0a707701fdd732a869db707127cf45dcec423491efd5bint;
    let v7 = -0x1c558135167912a073c0a707701fdd732a869db707127cf45dcec423491efd59int;
    let k7 = double_step(p, k6, x6, y6, u7, v7, x7, y7);
    let x8 = 0xeda526805ac53315097de854cc424364de09b677c3ba5ba880d79ec99704fe9int;
    let y8 = 0x17650d0facc47c02820c5f6624c192fbe7ede447f32b132f01aed546ab842e4eint;
    let m8 = 0x2ebd42e4d20d86137e6ceb3ea0e41c8bfba5a7f282e11c5e0b6e966d3fdbc322int;
    let u8 = 0x2e09ce42bd825fa8ee15905ccd3a31d7877e1ba98719dfa6d4aa28d8231cd8fcint;
    let v8 = -0x2e09ce42bd825fa8ee15905ccd3a31d7877e1ba98719dfa6d4aa28d8231cd8faint;
    let k8 = add_step(p, e, bx, by, k7, x7, y7, m8, u8, v8, x8, y8);
    let x9 = 0x2f07a78e2bb067591789912f582c61f67fe0cd5b8245f5184ab2702d00f3cd0bint;
    let y9 = 0x1e49b86f7350c617577430927c7de09689e134108dc2611839ea9c6080cb1cf2int;
    let u9 = 0x2487219c369c6a8160912bfafddf00f09166b260a38067b76473aa88449fbaaaint;
    let v9 = -0x2487219c369c6a8160912bfafddf00f09166b260a38067b76473aa88449fbaa8int;
    let k9 = double_step(p, k8, x8, y8, u9, v9, x9, y9);
    let x10 = 0x4578ab76527dc93b22d31fc5ec709e59dcc02f648157d651c21814c9c360147dint;
    let y10 = 0x516eee594e6efb2ac34d2f9f2df43125ce857203fb430746fee069840d6516bdint;
    let m10 = 0x1470a4a6dc6601b2fd76089531ebc0050aa5979ddc43821469b57a7926aafb27int;
    let u10 = 0x748bda415074b86830dbd26c53319396c5a2aa5ca6384a98a6669f0022f32c5dint;
    let v10 = -0x748bda415074b86830dbd26c53319396c5a2aa5ca6384a98a6669f0022f32c5bint;
    let k10 = add_step(p, e, bx, by, k9, x9, y9, m10, u10, v10, x10, y10);
    let x11 = 0x6fc0ff57db4468798014aeeb8a32524dc3a8ddab508a5cfb01c621eeffbfa778int;
    let y11 = 0x6bba98b582652fce7599afc865f556dee594aa5619e0db0e7218e611d4fdeab5int;
    let u11 = 0x4169011b2c396306e39d3dbc749134f13c0c0bd87d3a54db70c5b5011b68a084int;
    let v11 = -0x4169011b2c396306e39d3dbc749134f13c0c0bd87d3a54db70c5b5011b68a082int;
    let k11 = double_step(p, k10, x10, y10, u11, v11, x11, y11);
    let x12 = 0x63a653cf225b7d8b742be2e38160d5436c54479fff964ff2a32adcb7b3aa7430int;
    let y12 = 0x753a3483e7d0e045ac001ade2d762a62ba6cb8ea8cccc30f764d98d937eb76eint;
    let m12 = 0x1d21e9d3b26f32b16ccf617e0ea91a68cf401ff9acdf78321119a6f63fcf48ecint;
    let u12 = 0x83fc0e79bc05c317225fca3a5c65d13d0f753e1bd8079af455871a7c9d01a36int;
    let v12 = -0x83fc0e79bc05c317225fca3a5c65d13d0f753e1bd8079af455871a7c9d01a34int;
    let k12 = add_step(p, e, bx, by, k11, x11, y11, m12, u12, v12, x12, y12);
}

proof fn lemma_chain_16()
    requires
        multiple(0x1000000000000000000000000000000014def9dea2fint, 0x63a653cf225b7d8b742be2e38160d5436c54479fff964ff2a32adcb7b3aa7430int, 0x753a3483e7d0e045ac001ade2d762a62ba6cb8ea8cccc30f764d98d937eb76eint),
    ensures
        multiple(0x1000000000000000000000000000000014def9dea2f79int, 0x3deddc210c532ba05c57d46b1e1558f10711d07bef62a5e090b5de45aede3e08int, 0x74857910bd0658820ce61ca81efc0ff3c8a750ce50ca5cc120227735b34afb48int),
{
    let p = 0x7fffffffffffffffffffffffffffffffffffffffffffffffffffffffffffffedint;
    let e = 0x3788bdb44f8632d42d0dbee5eea1acc6136cf411e655624f55e48902c3bd5534int;
    let bx = 0x216936d3cd6e53fec0a4e231fdd6dc5c692cc7609525a7b2c9562d608f25d51aint;
    let by = 0x6666666666666666666666666666666666666666666666666666666666666658int;
    lemma_base();
    let x0 = 0x63a653cf225b7d8b742be2e38160d5436c54479fff964ff2a32adcb7b3aa7430int;
    let y0 = 0x753a3483e7d0e045ac001ade2d762a62ba6cb8ea8cccc30f764d98d937eb76eint;
    let k0 = 0x1000000000000000000000000000000014def9dea2fint;
    let x1 = 0x495280f6f8613a4d03095785210e87cb2bf2e2f1de4fcdf53ad802d9dbdd4fe3int;
    let y1 = 0x65d3fcfa73a1fabb21e125bf9a173df3d53f195ceda109fa1dc3e7ae1c3ac966int;
    let u1 = 0x4c5f613765928f723fe65e91d988a5cc74ec78f514eaefa7cb7ec3d0f3bca315int;
    let v1 = -0x4c5f613765928f723fe65e91d988a5cc74ec78f514eaefa7cb7ec3d0f3bca313int;
    let k1 = double_step(p, k0, x0, y0, u1, v1, x1, y1);
    let x2 = 0x53c16f123c7874cc6b0cf408431313dbef170b5d183ffdfa2984bbd4a396ce81int;
    let y2 = 0x3efc9b14d79714a54c700cba6102d9282a234c756405ac856af638c1a8088c8dint;
    let u2 = 0x39e6c28b2f6e367cfb4dcb2276464cfa2db503f3ac23781465985f0b4333b0f2int;
    let v2 = -0x39e6c28b2f6e367cfb4dcb2276464cfa2db503f3ac23781465985f0b4333b0f0int;
    let k2 = double_step(p, k1, x1, y1, u2, v2, x2, y2);
    let x3 = 0x733c54266c4dca9986bd571ffd5d6ecdd101d795bb1bcb4e27ae488f57b1a022int;
    let y3 = 0x6dc0a5253f33f9e1634fd4341dd3da9db3257f4bdf8d5ff14e17f3c938072b35int;
    let m3 = 0x6dabf1967414062d5a8a68eca0546566aa248e9c50cd0bd22728754f7614c5bint;
    let u3 = 0x583120d18f2526801c3c4e7526b22873a64919ec5e80c71252084e7172c737e1int;
    let v3 = -0x583120d18f2526801c3c4e7526b22873a64919ec5e80c71252084e7172c737dfint;
    let k3 = add_step(p, e, bx, by, k2, x2, y2, m3, u3, v3, x3, y3);
    let x4 = 0x47e5ccc40daaf95dd24cfbf29964f8fd1963b46a4d8ca55590d261a7013c7c84int;
    let y4 = 0x1d43893411bd1e13d99440c4aa1ca132613c53b3b114fb80392c437b4d623b6bint;
    let u4 = 0x11a54ef1b54f7a564866add4e508f88775c0b6e05e86f3c39acfec969844b4f6int;
    let v4 = -0x11a54ef1b54f7a564866add4e508f88775c0b6e05e86f3c39acfec969844b4f4int;
    let k4 = double_step(p, k3, x3, y3, u4, v4, x4, y4);
    let x5 = 0x5330a79db5d675752cc8b1bb9e892ed80d49d2619840ab82770dcd321716f696int;
    let y5 = 0x5e9da6ed193932ae97fb848c876ebdce2506d9efd166695cdaf7e78b90926369int;
    let m5 = 0x571643ef44c3035e5bdf95409b1511e457f18d8416aab7cf6207ca6bf30222a0int;
    let u5 = 0x29588c94ab9c11140ab9b6e8c33e8e6e5586b50cfc3662fabf1a0b67f7827fdint;
    let v5 = -0x29588c94ab9c11140ab9b6e8c33e8e6e5586b50cfc3662fabf1a0b67f7827fbint;
    let k5 = add_step(p, e, bx, by, k4, x4, y4, m5, u5, v5, x5, y5);
    let x6 = 0x14b8e1244b4e7c9141c94815b3ffa7c86f45a81f523550b81eacb207d941c9e4int;
    let y6 = 0x68ec7c5d93fed0a2ce0c847f05b38660cfb9c73bf6804cbe7f4cc8f056692014int;
    let u6 = 0x39f2f711bb33b0f962211c440f4094b33bb03276d4b00ea6386fa57712ae9ad4int;
    let v6 = -0x39f2f711bb33b0f962211c440f4094b33bb03276d4b00ea6386fa57712ae9ad2int;
    let k6 = double_step(p, k5, x5, y5, u6, v6, x6, y6);
    let x7 = 0x5deebd7de7a7545e7c203ffab7e659756f2759ff7b6b12d2fb59d02ba7301d48int;
    let y7 = 0x24ab9d0d2dfafb6515fe277ae19bc9780b2a9a157a1fb85a9071623d22c024eaint;
    let m7 = 0x7a4ed957363d2b33e3ae9472eb26cf5576833b5224da3e5ce7f70df46c764374int;
    let u7 = 0x20474dc7f05f087c0de34c28adcc886df8b15933dd5c098d7d5bd13ab34534efint;
    let v7 = -0x20474dc7f05f087c0de34c28adcc886df8b15933dd5c098d7d5bd13ab34534edint;
    let k7 = add_step(p, e, bx, by, k6, x6, y6, m7, u7, v7, x7, y7);
    let x8 = 0x6da3ef297122f3458bc77dd7f62ccec2a3176c6ec99a8a5365b36c80ee256bcbint;
    let y8 = 0x2095a524a328d50cf95a570182bb35a1a0501038e3c0478006907a6d80d62ea6int;
    let u8 = 0x2f999220b5f11213cb7965c340674d4b91bc6318acbd9484a713bcc4fbdc7d4eint;
    let v8 = -0x2f999220b5f11213cb7965c340674d4b91bc6318acbd9484a713bcc4fbdc7d4cint;
    let k8 = double_step(p, k7, x7, y7, u8, v8, x8, y8);
    let x9 = 0x38b134fcb2edcab14185bba354a60604e140d8f943881c570611d622154c2a75int;
    let y9 = 0x1a683ec8479e69fc479bbb93bba4d7f52469c7b35e5060e8a91040c08564705eint;
    let m9 = 0x56155435f47ecbf2aa25103fd5598c6cccf6777619454b60f22508bcd2abf2f4int;
    let u9 = 0x7b5c0228f377113b3ca078e23854cbd0b1d569b2d1240dba3ef198a44b62b6e2int;
    let v9 = -0x7b5c0228f377113b3ca078e23854cbd0b1d569b2d1240dba3ef198a44b62b6e0int;
    let k9 = add_step(p, e, bx, by, k8, x8, y8, m9, u9, v9, x9, y9);
    let x10 = 0x6db79d4b001f4031c020618cf2815d977a4875e0ec42eadfd8e0d3f40b9ba4aeint;
    let y10 = 0xc277166834fbf50c3a3f59f302695df43509a3d809155095f18812ba5d721a1int;
    let u10 = 0x5c7cd313b2a2868b4e26f26b165b95e9f0e803ed628d4332d6a5a965ddaf16fcint;
    let v10 = -0x5c7cd313b2a2868b4e26f26b165b95e9f0e803ed628d4332d6a5a965ddaf16faint;
    let k10 = double_step(p, k9, x9, y9, u10, v10, x10, y10);
    let x11 = 0x45997974317248bb37daad58ae6012f4be854f783c828af1e0d942e976c6a6eaint;
    let y11 = 0x79da8f28ff1410729c2c806fd139b054472c2123f5b8d92bf0ace67d5a9e660dint;
    let u11 = 0x1bdaed7057538d9d913561f5717acd5d0ce7d69a4f264ca7e690fb6f3e5076cint;
    let v11 = -0x1bdaed7057538d9d913561f5717acd5d0ce7d69a4f264ca7e690fb6f3e5076aint;
    let k11 = double_step(p, k10, x10, y10, u11, v11, x11, y11);
    let x12 = 0x41ade170c60897e875248a33d60aa555e9a75222888b7dd4bf6ce765854b3c48int;
    let y12 = 0x62659115f742ef046d832d96fe2cbafba859d74dd7a2f2b67a942f0814aea437int;
    let u12 = 0x116e83deab85de9a219cb2ac8b97e086bd19495e7fa09a03bb62b8434c18a397int;
    let v12 = -0x116e83deab85de9a219cb2ac8b97e086bd19495e7fa09a03bb62b8434c18a395int;
    let k12 = double_step(p, k11, x11, y11, u12, v12, x12, y12);
    let x13 = 0x3deddc210c532ba05c57d46b1e1558f10711d07bef62a5e090b5de45aede3e08int;
    let y13 = 0x74857910bd0658820ce61ca81efc0ff3c8a750ce50ca5cc120227735b34afb48int;
    let m13 = 0x5b9eb736b074fa70274defd66fd53882977609ff879f74141a8a2bf9f4edbe3cint;
    let u13 = 0x1713ec3f5dbe5f0249e936f04f64c44bd8c1c3fea7ecbf4c5b61d9e5595a57d1int;
    let v13 = -0x1713ec3f5dbe5f0249e936f04f64c44bd8c1c3fea7ecbf4c5b61d9e5595a57cfint;
    let k13 = add_step(p, e, bx, by, k12, x12, y12, m13, u13, v13, x13, y13);
}

proof fn lemma_chain_17()
    requires
        multiple(0x1000000000000000000000000000000014def9dea2f79int, 0x3deddc210c532ba05c57d46b1e1558f10711d07bef62a5e090b5de45aede3e08int, 0x74857910bd0658820ce61ca81efc0ff3c8a750ce50ca5cc120227735b34afb48int),
    ensures
        multiple(0x1000000000000000000000000000000014def9dea2f79cdint, 0x4f175c88f1f18c44c21c21d4859f4ab50eaed92d362b7f22c574d1887b1cf92aint, 0x3c67a93523a8aa9763a0ad2b976c66c7cf62181c2fa809b15bc4d25be4560f38int),
{
    let p = 0x7fffffffffffffffffffffffffffffffffffffffffffffffffffffffffffffedint;
    let e = 0x3788bdb44f8632d42d0dbee5eea1acc6136cf411e655624f55e48902c3bd5534int;
    let bx = 0x216936d3cd6e53fec0a4e231fdd6dc5c692cc7609525a7b2c9562d608f25d51aint;
    let by = 0x6666666666666666666666666666666666666666666666666666666666666658int;
    lemma_base();
    let x0 = 0x3deddc210c532ba05c57d46b1e1558f10711d07bef62a5e090b5de45aede3e08int;
    let y0 = 0x74857910bd0658820ce61ca81efc0ff3c8a750ce50ca5cc120227735b34afb48int;
    let k0 = 0x1000000000000000000000000000000014def9dea2f79int;
    let x1 = 0x6d1d40be71a0e772f2af0cae1c50e332d4946be466257b4e30aee75f899e669cint;
    let y1 = 0x73ac4670d7faeb7ba16f511f49122ffae46b5bb47f18a8a2a423d6551f383fb5int;
    let u1 = 0x55c8f6a2dc80836a10396301c2cfbb6c5bd5d084d9f61378c2c94ed5a7d3b296int;
    let v1 = -0x55c8f6a2dc80836a10396301c2cfbb6c5bd5d084d9f61378c2c94ed5a7d3b294int;
    let k1 = double_step(p, k0, x0, y0, u1, v1, x1, y1);
    let x2 = 0x716590c94b623b246a4cea0f46af1be45b0eafb0e963b81dea34ba85519f24d7int;
    let y2 = 0x4e393f3897294ce5e4e7ed9c0947ebc3775b0ca59900128e2a67c8b68bcbc3e8int;
    let m2 = 0x6acc968c7e5d2fe2001e7ba21b006eba072786fcac21f244d273aaef549a890eint;
    let u2 = 0x73ad06545fc63986b0c51daee3cb17049c105d730d91848adcd765bcc2eca30aint;
    let v2 = -0x73ad06545fc63986b0c51daee3cb17049c105d730d91848adcd765bcc2eca308int;
    let k2 = add_step(p, e, bx, by, k1, x1, y1, m2, u2, v2, x2, y2);
    let x3 = 0x20f74ca0d6487756d502930e30118be838fff272f090bf9b9d80877667a550a5int;
    let y3 = 0xbfc748d9a14c87428a0ada40a7a01dbe8860f1b86ab970429bc6d471d39c045int;
    let u3 = 0x2e985814b3c2a9212e08568f5e1fe6c4fc877723871b1279799709cc954d654fint;
    let v3 = -0x2e985814b3c2a9212e08568f5e1fe6c4fc877723871b1279799709cc954d654dint;
    let k3 = double_step(p, k2, x2, y2, u3, v3, x3, y3);
    let x4 = 0x30dba84f0cd132775194b4a25926320b2b0c5f120204d8e9545d70d764fbb206int;
    let y4 = 0x1bc931a5b331adbfb5516736e78c6ee74639a8379f95208cc44233f1438ab76int;
    let m4 = 0x572d9447955be3f2ffc1b675e0c1cf10bc5ea79991050e9b30720683e5a4c8ecint;
    let u4 = 0x9ec3dd36697c5ae83643a9a4637a1549909d694c3df66967c54912cbdcccf72int;
    let v4 = -0x9ec3dd36697c5ae83643a9a4637a1549909d694c3df66967c54912cbdcccf70int;
    let k4 = add_step(p, e, bx, by, k3, x3, y3, m4, u4, v4, x4, y4);
    let x5 = 0x44987df38f8a506ca81878c40461a23415d958f4f116f1f666a9dfd0617c8290int;
    let y5 = 0x525618acec7d466cf74856a317edd906f8a177cac55b5fed5aa1bbaecbe27d3eint;
    let u5 = 0x74e38e2c5e80f703b0216903cfcf26cc1cc367f0ee5cfab70d0f14159ce0d2f8int;
    let v5 = -0x74e38e2c5e80f703b0216903cfcf26cc1cc367f0ee5cfab70d0f14159ce0d2f6int;
    let k5 = double_step(p, k4, x4, y4, u5, v5, x5, y5);
    let x6 = 0x567c281163625fc06276e3b75fea4870c4f3077ca5ef80dd6fdc51dcbc8afd1fint;
    let y6 = 0x7c9fe8d294d9748be92c38f17e898ccbb2b20612851621ae12c599a70a3c6518int;
    let u6 = 0x2ccd95a92d3aa5e69ad0482cb8793ceeb6c52738ab51af947e1ea967bd844f31int;
    let v6 = -0x2ccd95a92d3aa5e69ad0482cb8793ceeb6c52738ab51af947e1ea967bd844f2fint;
    let k6 = double_step(p, k5, x5, y5, u6, v6, x6, y6);
    let x7 = 0x3c740d62104030e67d04224b575858475076abc1b6f6c5138146857ae99a2890int;
    let y7 = 0x6080a124de94a827a96e1901ebf763847cc14ab06a9d899572f4ff9d52126795int;
    let u7 = 0x34e021f4a0bd43902d56ac5d604fe6b4506146c5c139ac2c76c3051f30f7762int;
    let v7 = -0x34e021f4a0bd43902d56ac5d604fe6b4506146c5c139ac2c76c3051f30f7760int;
    let k7 = double_step(p, k6, x6, y6, u7, v7, x7, y7);
    let x8 = 0x438d112fcecd130c3ddfe1ea03751e6f66eb53d66108843669b2e93479c3005aint;
    let y8 = 0x165e8a28c114f70dcc3a7821003985799486dda92eb324f1dca11e221f0312c9int;
    let m8 = 0x431fb73c180b5cb06890ffa131932b51cbf79c6317c3f6b8665f0a659d37c339int;
    let u8 = 0x3503557b765b43e1f45e71c1a01b021d1cd86d41a5b84d02f6fc2e1fa794a789int;
    let v8 = -0x3503557b765b43e1f45e71c1a01b021d1cd86d41a5b84d02f6fc2e1fa794a787int;
    let k8 = add_step(p, e, bx, by, k7, x7, y7, m8, u8, v8, x8, y8);
    let x9 = 0x18358b5ec14c3a1f355fc6197ffb0ce5d13de02b02d62486655389c71ac81b17int;
    let y9 = 0x3a4dc8abfba10552fa1650f91ed628441c20758112c3679dd8c3555b51a6566cint;
    let u9 = 0x5f11f8578485269c5054d0f578a105ae303f2bd41a717e7cb9be109bf48fa48cint;
    let v9 = -0x5f11f8578485269c5054d0f578a105ae303f2bd41a717e7cb9be109bf48fa48aint;
    let k9 = double_step(p, k8, x8, y8, u9, v9, x9, y9);
    let x10 = 0x50a50a832c3190d9182a3706f038a16bd1e637e630ffb355c2d398527ddc7ee9int;
    let y10 = 0x47c5a1b88bda73b531d3e6634ffaaf213c677296c979fa4e045bb6eb53b43724int;
    let m10 = 0x353b17f3b3d7b692a6dca45ffb542c82f885445066d6d6b6768646aa525e5826int;
    let u10 = 0x2a6d0903ce3ce68cd64594ba38b0ad61a348cacbaf70ebe1d90389c26c598c85int;
    let v10 = -0x2a6d0903ce3ce68cd64594ba38b0ad61a348cacbaf70ebe1d90389c26c598c83int;
    let k10 = add_step(p, e, bx, by, k9, x9, y9, m10, u10, v10, x10, y10);
    let x11 = 0x33d2496545d1f0fc31fe7c7622c080370003ff2a48ebfc3c6540b3731cba33d7int;
    let y11 = 0x7aacbe35b005c94e538f8e6392ad89940ef99d1f8293702db1017ca97b85d3f7int;
    let u11 = 0x7d9e21edeef83a854c64cd86526e6595d9705c75c2a8e81568ddd11e6267b2aeint;
    let v11 = -0x7d9e21edeef83a854c64cd86526e6595d9705c75c2a8e81568ddd11e6267b2acint;
    let k11 = double_step(p, k10, x10, y10, u11, v11, x11, y11);
    let x12 = 0x4057004e03155a08105ba31581e8af5a43e17e54f2e35f449b4317033b94f41eint;
    let y12 = 0x4926f7d1f70405492cd9111ebf1cec588541ed4dc6b483cd1f51e5be13343221int;
    let u12 = 0x5b197e9bc9a7dd537be7cda388a417b42786ed5cb5d7136a063ec8e2e07ca9c1int;
    let v12 = -0x5b197e9bc9a7dd537be7cda388a417b42786ed5cb5d7136a063ec8e2e07ca9bfint;
    let k12 = double_step(p, k11, x11, y11, u12, v12, x12, y12);
    let x13 = 0x4f175c88f1f18c44c21c21d4859f4ab50eaed92d362b7f22c574d1887b1cf92aint;
    let y13 = 0x3c67a93523a8aa9763a0ad2b976c66c7cf62181c2fa809b15bc4d25be4560f38int;
    let m13 = 0x26da9f5c9267f5ce07619515138b59cc54640103990af5442757e6b2d558b701int;
    let u13 = 0x49ec083b51892047ceb9cbf08811d06fd13f127815797a097049b95a284c02dcint;
    let v13 = -0x49ec083b51892047ceb9cbf08811d06fd13f127815797a097049b95a284c02daint;
    let k13 = add_step(p, e, bx, by, k12, x12, y12, m13, u13, v13, x13, y13);
}

proof fn lemma_chain_18()
    requires
        multiple(0x1000000000000000000000000000000014def9dea2f79cdint, 0x4f175c88f1f18c44c21c21d4859f4ab50eaed92d362b7f22c574d1887b1cf92aint, 0x3c67a93523a8aa9763a0ad2b976c66c7cf62181c2fa809b15bc4d25be4560f38int),
    ensures
        multiple(0x1000000000000000000000000000000014def9dea2f79cd65int, 0x7e31e25ce2f33bdbeb7c20940e4012716424ee1d426c5be0a215e26d4664ba8dint, 0x574c1c6b3a0150def0940caaa7841f0d37a4315c63fcfa3006d005c3baf9ba42int),
{
    let p = 0x7fffffffffffffffffffffffffffffffffffffffffffffffffffffffffffffedint;
    let e = 0x3788bdb44f8632d42d0dbee5eea1acc6136cf411e655624f55e48902c3bd5534int;
    let bx = 0x216936d3cd6e53fec0a4e231fdd6dc5c692cc7609525a7b2c9562d608f25d51aint;
    let by = 0x6666666666666666666666666666666666666666666666666666666666666658int;
    lemma_base();
    let x0 = 0x4f175c88f1f18c44c21c21d4859f4ab50eaed92d362b7f22c574d1887b1cf92aint;
    let y0 = 0x3c67a93523a8aa9763a0ad2b976c66c7cf62181c2fa809b15bc4d25be4560f38int;
    let k0 = 0x1000000000000000000000000000000014def9dea2f79cdint;
    let x1 = 0x432f1938627f74e78671e2a43cbcb213cb9e35dbffec84a1941d0573b206498aint;
    let y1 = 0x22ce09d583c2478325374ad3f55c77db2950fd2989d41d94ed619759c00b485dint;
    let u1 = 0x453742100892f6b92e042e9482da1385e2bb04e19f18da76024d2cc282bcb263int;
    let v1 = -0x453742100892f6b92e042e9482da1385e2bb04e19f18da76024d2cc282bcb261int;
    let k1 = double_step(p, k0, x0, y0, u1, v1, x1, y1);
    let x2 = 0x69d813691098c822fb29c81e1a41b313ffadf5a69f17943e1cfa2e55dfb43122int;
    let y2 = 0x2a216d2062bc2644ed0c18491c46bb9dbc8411411aae71f7cfd400f652b332ccint;
    let u2 = 0x38dacd49a1ca497f00daebe32b8960ec7ce0220c343db4134998b45f905d9d8dint;
    let v2 = -0x38dacd49a1ca497f00daebe32b8960ec7ce0220c343db4134998b45f905d9d8bint;
    let k2 = double_step(p, k1, x1, y1, u2, v2, x2, y2);
    let x3 = 0xcf4b47ad791e73fa38f8aed02c9f6149eab95fe248c6c12bb9ae179d2c397bfint;
    let y3 = 0x598a81acf70c86d51fa05bc4e37386907bf3182ace4bd475efa21daaf5c6f489int;
    let m3 = 0x5d479d07eee7c4f7fd2b1c0b7554169fe89561ffd415b18a176be2bf1e443e9dint;
    let u3 = 0x151acbd14c94037228869bf5d5f282f8531ce106995d278dbe263216f8122e08int;
    let v3 = -0x151acbd14c94037228869bf5d5f282f8531ce106995d278dbe263216f8122e06int;
    let k3 = add_step(p, e, bx, by, k2, x2, y2, m3, u3, v3, x3, y3);
    let x4 = 0x6269bace6fdc445e3a7effd54b1f08368f89a058b29240f2aaf4271aebfc2e40int;
    let y4 = 0x2facf74115d2826c7c4adb9245a6dd2dee14ed1fd476797d180e1085d0d281f2int;
    let u4 = 0x10b587d5feb4f20adefeb1c212a84c4f7780ed0ed5d77cfd4bb030619d9d2c0int;
    let v4 = -0x10b587d5feb4f20adefeb1c212a84c4f7780ed0ed5d77cfd4bb030619d9d2beint;
    let k4 = double_step(p, k3, x3, y3, u4, v4, x4, y4);
    let x5 = 0x6a9eb9ab75e3aabd8bd21bfa246ce1e1bb598826469899de07d45d5be9e3df5eint;
    let y5 = 0x42f6a437f88165a3c2803a64148544f81e78564c81a59c0ecb6964ad7bfde2aeint;
    let m5 = 0x6fc724555aa2cbd90713bc250c95e877032644fb46f415567193549da8f4d46aint;
    let u5 = 0x4fa218feb84bcd76db1b1866f2779df002b03866a837184a1d9a924c153029ecint;
    let v5 = -0x4fa218feb84bcd76db1b1866f2779df002b03866a837184a1d9a924c153029eaint;
    let k5 = add_step(p, e, bx, by, k4, x4, y4, m5, u5, v5, x5, y5);
    let x6 = 0x28dea5b653a8874341aed397c2f47f0e9f4e8db796628257f92a4a613a4dec75int;
    let y6 = 0xb5a5f41eb97504950630df1cc279904813319781798c75b73e3269b123d4ef9int;
    let u6 = 0x13883ea3c7cd566b8163c5be9254fc23c6c01b420cf06565edcda5e833b2572aint;
    let v6 = -0x13883ea3c7cd566b8163c5be9254fc23c6c01b420cf06565edcda5e833b25728int;
    let k6 = double_step(p, k5, x5, y5, u6, v6, x6, y6);
    let x7 = 0x241fd8625768d336c5b2859ece0269dc744edc4f9be6f2a152b363c938292e77int;
    let y7 = 0x67b74adb92343107a0e770761d62e63d08d730d97f4aaab4d7a507e2d7a4fe9aint;
    let u7 = 0x68ac11d085b342b481b09d19d46e5a86496ecbbd26de146d483549088a45dc76int;
    let v7 = -0x68ac11d085b342b481b09d19d46e5a86496ecbbd26de146d483549088a45dc74int;
    let k7 = double_step(p, k6, x6, y6, u7, v7, x7, y7);
    let x8 = 0x14d4d53fd40390f03d1980cbc4dc1068b52b2f89831f71b3b589a6fd12cfc35dint;
    let y8 = 0x772b227c06bec255c207246f14a22fcc6c202661735a889ba8d5ce604ca7f3c0int;
    let u8 = 0x6653056fb62d935eac31349d3881fa01d630d58720c91cf2bdec66068526781cint;
    let v8 = -0x6653056fb62d935eac31349d3881fa01d630d58720c91cf2bdec66068526781aint;
    let k8 = double_step(p, k7, x7, y7, u8, v8, x8, y8);
    let x9 = 0x48c536dd151f35a5677221ce227b58185aeebf56f42fa0e35ea0e3279e51e9f5int;
    let y9 = 0x1a189af1109aafa2ea3950d2fd18138a5da2b83321a71491446cfc7f04e852dint;
    let m9 = 0x49261714a59d144380e4c601d6c11a6dc5574340dc329f48c17d5108131e69dint;
    let u9 = 0x27ed2702ca98face5b944f8dc1bc9e9264164cfabb9cf16bf3d28ad2e3f86a52int;
    let v9 = -0x27ed2702ca98face5b944f8dc1bc9e9264164cfabb9cf16bf3d28ad2e3f86a50int;
    let k9 = add_step(p, e, bx, by, k8, x8, y8, m9, u9, v9, x9, y9);
    let x10 = 0x1e007174d56a63ed603d09825b4b6970d3e7ceaea90133db60b7121cbbce0474int;
    let y10 = 0x477289b0018aab0e1f4235b9606e93e36dcd2a0ce20a4d5172cf01c67b446d66int;
    let u10 = 0x75504d2180490cc0d25445f2c629e11d83142831ac25ed8a83a76dd1c67455e7int;
    let v10 = -0x75504d2180490cc0d25445f2c629e11d83142831ac25ed8a83a76dd1c67455e5int;
    let k10 = double_step(p, k9, x9, y9, u10, v10, x10, y10);
    let x11 = 0x46a9642b7fb5c9d44cb1a33d5ef366536d89efd7bc6d73519d6c87555069f75cint;
    let y11 = 0x71d3f6a21c2c5d63c3b5628506e274284c404c45b9bc5259807e5d7f281c4f9aint;
    let u11 = 0x6280ce8fb66e429684a19651e0f56e2a5c1a247d42c519b0b6acb575bbf2fe44int;
    let v11 = -0x6280ce8fb66e429684a19651e0f56e2a5c1a247d42c519b0b6acb575bbf2fe42int;
    let k11 = double_step(p, k10, x10, y10, u11, v11, x11, y11);
    let x12 = 0x7e31e25ce2f33bdbeb7c20940e4012716424ee1d426c5be0a215e26d4664ba8dint;
    let y12 = 0x574c1c6b3a0150def0940caaa7841f0d37a4315c63fcfa3006d005c3baf9ba42int;
    let m12 = 0x13c80f705aae4d6388dd6d8885680abad932f9aa88a71821e2c997bb3bf2f8e2int;
    let u12 = 0x646a663a00161ff212572f980e944ef61591f5bd3db2f2f53cc6e21af81d227dint;
    let v12 = -0x646a663a00161ff212572f980e944ef61591f5bd3db2f2f53cc6e21af81d227bint;
    let k12 = add_step(p, e, bx, by, k11, x11, y11, m12, u12, v12, x12, y12);
}

proof fn lemma_chain_19()
    requires
        multiple(0x1000000000000000000000000000000014def9dea2f79cd65int, 0x7e31e25ce2f33bdbeb7c20940e4012716424ee1d426c5be0a215e26d4664ba8dint, 0x574c1c6b3a0150def0940caaa7841f0d37a4315c63fcfa3006d005c3baf9ba42int),
    ensures
        multiple(0x40000000000000000000000000000000537be77a8bde7359604int, 0x5e917a9fdede4806681bc041b0e45569bcf7251e5c74e8139d2dcd9c6596af2int, 0x45fc91eba1ba3fe32cfe20527b179a7a994ea367f8faa02dd1ff4b68a17bbb59int),
{
    let p = 0x7fffffffffffffffffffffffffffffffffffffffffffffffffffffffffffffedint;
    let e = 0x3788bdb44f8632d42d0dbee5eea1acc6136cf411e655624f55e48902c3bd5534int;
    let bx = 0x216936d3cd6e53fec0a4e231fdd6dc5c692cc7609525a7b2c9562d608f25d51aint;
    let by = 0x6666666666666666666666666666666666666666666666666666666666666658int;
    lemma_base();
    let x0 = 0x7e31e25ce2f33bdbeb7c20940e4012716424ee1d426c5be0a215e26d4664ba8dint;
    let y0 = 0x574c1c6b3a0150def0940caaa7841f0d37a4315c63fcfa3006d005c3baf9ba42int;
    let k0 = 0x1000000000000000000000000000000014def9dea2f79cd65int;
    let x1 = 0x3a14729c88ed407f672192d30f7020b4f05825af9d2580b9f48d0675c31fd594int;
    let y1 = 0xf1388110a39b208b11ca855721ffdabc4229b7685f4f8e0aabca097acc6ca41int;
    let u1 = 0x32f1e6e11ae6ecce07c4839a9f7b8d5a8bf54e6dabf7ec4ef7e53ed99f55eb76int;
    let v1 = -0x32f1e6e11ae6ecce07c4839a9f7b8d5a8bf54e6dabf7ec4ef7e53ed99f55eb74int;
    let k1 = double_step(p, k0, x0, y0, u1, v1, x1, y1);
    let x2 = 0x66d729896eee90b4b256708d50bbe2ba54e92aca741ff1634b6715b51bf313b8int;
    let y2 = 0x5bbe8edb8f98d5ed8031069799fc0e65d93c3d3bf4475e79ddca1cc775f905dint;
    let m2 = 0x74538c7d83ce96a814582721fa06d6a3f0106df6f60b04d30d361785cb12b084int;
    let u2 = 0x4e33365b922f3e6a464a5f50e7b324095bfc77cf7cd96b3940127c9886be1ccdint;
    let v2 = -0x4e33365b922f3e6a464a5f50e7b324095bfc77cf7cd96b3940127c9886be1ccbint;
    let k2 = add_step(p, e, bx, by, k1, x1, y1, m2, u2, v2, x2, y2);
    let x3 = 0x46ed181fa9c14c7ad6f26af9d8a6f3840369eab60751da48e07669441e427e88int;
    let y3 = 0x3159da64986c457fdc9a558811e02f916c3c1419e2ec7a77692bb9aa03eea812int;
    let u3 = 0x5483ca18367f5b5f10b0918519669bef5c0352f531aefcf72f014764eb52d3d8int;
    let v3 = -0x5483ca18367f5b5f10b0918519669bef5c0352f531aefcf72f014764eb52d3d6int;
    let k3 = double_step(p, k2, x2, y2, u3, v3, x3, y3);
    let x4 = 0x708ac5959efa659b950fd201d9d0dd1b0500720050201eaf649138e5414a076cint;
    let y4 = 0x35ce4b8c44cf204403dbdcb41ea0e409dd8d2ae186f7e2fa34325950a3f920a9int;
    let u4 = 0x5b42b1c5347300d691975371a9e6f5539ab51c026a079ffe1e595de43e0bd26eint;
    let v4 = -0x5b42b1c5347300d691975371a9e6f5539ab51c026a079ffe1e595de43e0bd26cint;
    let k4 = double_step(p, k3, x3, y3, u4, v4, x4, y4);
    let x5 = 0x4bcb5fe2d71d9b1d24270b76cd89ece9aec968750ad5286dc875bc3cf3533577int;
    let y5 = 0x3628ed54d02e5dfb64d0327c29ed40ab476e047ce4fa7ac02586ccbc75a214dbint;
    let u5 = 0x7ac0ce404dcea579f45dec2f8dd52dc48c1f690f25797ec2feea66edf396a885int;
    let v5 = -0x7ac0ce404dcea579f45dec2f8dd52dc48c1f690f25797ec2feea66edf396a883int;
    let k5 = double_step(p, k4, x4, y4, u5, v5, x5, y5);
    let x6 = 0x63f263b8a78463d91d6b36e9dbe4499ffad5687c9e7f0dc45310224b10e4ffbdint;
    let y6 = 0x57522c241c319711600da8563792e34a86220a1f9559bbfdf41b46e0d1610bccint;
    let u6 = 0x5e82e6e05872efe63ebd2e02596720ef8e0bcfdb107a1cf48319e0882e44d648int;
    let v6 = -0x5e82e6e05872efe63ebd2e02596720ef8e0bcfdb107a1cf48319e0882e44d646int;
    let k6 = double_step(p, k5, x5, y5, u6, v6, x6, y6);
    let x7 = 0x15def7d3220773cf17caa0acb3cc1592a0a3b31a9ae0c32119b23f6609f59678int;
    let y7 = 0x13eac586b39d40545275d33b9a1b989c179b72f043312898e49d2671aab0c404int;
    let u7 = 0x1ce9bc2701530f4b7be05ed683c6ea205b3597d293d0c1c5f9a0c2df4e679c36int;
    let v7 = -0x1ce9bc2701530f4b7be05ed683c6ea205b3597d293d0c1c5f9a0c2df4e679c34int;
    let k7 = double_step(p, k6, x6, y6, u7, v7, x7, y7);
    let x8 = 0x3a7ab5d0456fd731ba66658fbe73219dd5e3049211b65cfa0f95f354b521a9e4int;
    let y8 = 0xf8aa4214d8d1b29eb9b07bba973c12806495b5e821bbbcb3a571fac21c1970dint;
    let u8 = 0x40611ecc28260bfd8e7e32b80e2a709281857fe726d210d34feb63cfcb09b6fbint;
    let v8 = -0x40611ecc28260bfd8e7e32b80e2a709281857fe726d210d34feb63cfcb09b6f9int;
    let k8 = double_step(p, k7, x7, y7, u8, v8, x8, y8);
    let x9 = 0x75ac8909bf1e224f29732dcda6c64471cfc2c0480a9332a5ab6262f3e4e74293int;
    let y9 = 0x3cce4b3e3043fbf4dc7807940f5911dd415445864106e12c8815af37d8d2995eint;
    let u9 = 0x7f60aa78ac2327e3db93651715ef0e8a93202bedbbe09dd10bec46ec67a7a602int;
    let v9 = -0x7f60aa78ac2327e3db93651715ef0e8a93202bedbbe09dd10bec46ec67a7a600int;
    let k9 = double_step(p, k8, x8, y8, u9, v9, x9, y9);
    let x10 = 0x6952a974608d177fc8f5f3d942c430bf0faa89d6987b88db8e179a51379e0e6cint;
    let y10 = 0x14d095f1bc87afb8f11379e4cb0b560c174344bdc6f5d81364890fdafbe6c993int;
    let m10 = 0x24ee1e95ef56031eb32da1fd2b8ed3782dabf890cd8467a84110c222c57f5947int;
    let u10 = 0x692a7abd674a97213d1154d322aa200e179e92421f9e12ca950222fb1dc1ee2bint;
    let v10 = -0x692a7abd674a97213d1154d322aa200e179e92421f9e12ca950222fb1dc1ee29int;
    let k10 = add_step(p, e, bx, by, k9, x9, y9, m10, u10, v10, x10, y10);
    let x11 = 0x7487802e30ac2b30020f70a04150ebd6d5da18997e7841b2efeb3ff1ed6cba91int;
    let y11 = 0x74430345ab7d848361a1ae5dd131cce5b499237b4eaaa8d6f20c24ef666f0ab3int;
    let u11 = 0x108b2a0214245e134369e4f1459b51afd5aed523c9c72921871f124e64b39715int;
    let v11 = -0x108b2a0214245e134369e4f1459b51afd5aed523c9c72921871f124e64b39713int;
    let k11 = double_step(p, k10, x10, y10, u11, v11, x11, y11);
    let x12 = 0x5e917a9fdede4806681bc041b0e45569bcf7251e5c74e8139d2dcd9c6596af2int;
    let y12 = 0x45fc91eba1ba3fe32cfe20527b179a7a994ea367f8faa02dd1ff4b68a17bbb59int;
    let u12 = 0x1514219e1efcde1a255d0bf063fab83f4af2a4c4ef14af99f41f9f1492a27b5cint;
    let v12 = -0x1514219e1efcde1a255d0bf063fab83f4af2a4c4ef14af99f41f9f1492a27b5aint;
    let k12 = double_step(p, k11, x11, y11, u12, v12, x12, y12);
}

proof fn lemma_chain_20()
    requires
        multiple(0x40000000000000000000000000000000537be77a8bde7359604int, 0x5e917a9fdede4806681bc041b0e45569bcf7251e5c74e8139d2dcd9c6596af2int, 0x45fc91eba1ba3fe32cfe20527b179a7a994ea367f8faa02dd1ff4b68a17bbb59int),
    ensures
        multiple(0x80000000000000000000000000000000a6f7cef517bce6b2c0931int, 0x358fefd55b1ef6950c5545e25fba92a7b21314844798cd6ca74a261e517458c2int, 0x179011d184c51760c90200db40ce80f10447faca84c42fb5d0a8f101fe8d3aa3int),
{
    let p = 0x7fffffffffffffffffffffffffffffffffffffffffffffffffffffffffffffedint;
    let e = 0x3788bdb44f8632d42d0dbee5eea1acc6136cf411e655624f55e48902c3bd5534int;
    let bx = 0x216936d3cd6e53fec0a4e231fdd6dc5c692cc7609525a7b2c9562d608f25d51aint;
    let by = 0x6666666666666666666666666666666666666666666666666666666666666658int;
    lemma_base();
    let x0 = 0x5e917a9fdede4806681bc041b0e45569bcf7251e5c74e8139d2dcd9c6596af2int;
    let y0 = 0x45fc91eba1ba3fe32cfe20527b179a7a994ea367f8faa02dd1ff4b68a17bbb59int;
    let k0 = 0x40000000000000000000000000000000537be77a8bde7359604int;
    let x1 = 0x3b8aea1b5309dd6eb30d30bf3596a4578ee6a37dd4a42fd4c7f0fdbc844dbc95int;
    let y1 = 0x3c0c9a72fd4f9b40deb5f19f42318bb32d39b9bc09992c4c455c5fd67ed2bafeint;
    let u1 = 0x201892a713a095f57ee128d9c7bd39808608ca2f84581eb79e8438b77b9abd91int;
    let v1 = -0x201892a713a095f57ee128d9c7bd39808608ca2f84581eb79e8438b77b9abd8fint;
    let k1 = double_step(p, k0, x0, y0, u1, v1, x1, y1);
    let x2 = 0xd47f14c8c132ef07b48fa44bf77800c9a711992cfdcf161d5b75fe915911ae5int;
    let y2 = 0x6b51fc6e8c2bf539b9c06d3f057263f1ee1ccaa6ddeae7f4fb3236f74bc26441int;
    let m2 = 0x587ea65117a5c7a0620cc68db61fd8c33d06f2aa717ef0dc1264d35851128f54int;
    let u2 = 0x757337c1fce33d9e4c50ea464ef34b326873254c76e83c50dc6170c7e0d5d16fint;
    let v2 = -0x757337c1fce33d9e4c50ea464ef34b326873254c76e83c50dc6170c7e0d5d16dint;
    let k2 = add_step(p, e, bx, by, k1, x1, y1, m2, u2, v2, x2, y2);
    let x3 = 0x432a126d4d4634439e01606c5667acbcb3ef0fd1d966149e325d9e30bc542ca4int;
    let y3 = 0x22bc7a01c7367c8d225e31a32809a7f9b2e1c2dae1b580960039e0cb6d2a2934int;
    let u3 = 0x4e61edd779c77a692ce84ed7da8752d62ab81e48b86abb0feb253aaaf7b7c162int;
    let v3 = -0x4e61edd779c77a692ce84ed7da8752d62ab81e48b86abb0feb253aaaf7b7c160int;
    let k3 = double_step(p, k2, x2, y2, u3, v3, x3, y3);
    let x4 = 0x2b5fb5ddd21b1cae59e1ff994944c1a4fe17256aa02c974d58b053e07647a145int;
    let y4 = 0x79d648e277e566c254f8442a869ec17b8071e46c526184439cb0c8ebd5c615f7int;
    let u4 = 0x15abc46be83c3db0588c447a08a3a1c9219b34e1a0c384896de70017f4c25714int;
    let v4 = -0x15abc46be83c3db0588c447a08a3a1c9219b34e1a0c384896de70017f4c25712int;
    let k4 = double_step(p, k3, x3, y3, u4, v4, x4, y4);
    let x5 = 0x3eaf1ba76a2b5f0b11d7e0daa387b9f67b3eb87bae0ff2ce69e02569f8939d5int;
    let y5 = 0x3f04caed886ef4e868b85e242ed1a6263b98b3347c06664583bd12dcc06c61c3int;
    let u5 = 0x495333c2103207f8d4758a653e3a6839db5c898c4432528b9aa20019dbc477beint;
    let v5 = -0x495333c2103207f8d4758a653e3a6839db5c898c4432528b9aa20019dbc477bcint;
    let k5 = double_step(p, k4, x4, y4, u5, v5, x5, y5);
    let x6 = 0x6c6ce021fb62d202d23ed27c1605aaf64dd452950cf1f2a117a429f2f3796225int;
    let y6 = 0x77178bc18403c9408c457574c33e3c33b878dd59b8cabb659b328469713a14beint;
    let m6 = 0x54b94a3be4ef855cb1bc3f11a522b6d6bcdaae360da62d183e7fff340f87636fint;
    let u6 = 0x1868a6e0cc4761025a52fb47ea45d2f38b64e80104b181d138415ec1485fb62dint;
    let v6 = -0x1868a6e0cc4761025a52fb47ea45d2f38b64e80104b181d138415ec1485fb62bint;
    let k6 = add_step(p, e, bx, by, k5, x5, y5, m6, u6, v6, x6, y6);
    let x7 = 0x4b8f042ca98af49b8f60199379da5e92f20ee8479307ebf3130510bb2d237969int;
    let y7 = 0x1780b0b3f597c214b7223d246344dda7f490c7ecce8123cd303a6b6c6d60c40int;
    let u7 = 0x16728eecb9d78578cd547105b4be2ed540935e50e95e44ef9204ac2d34862188int;
    let v7 = -0x16728eecb9d78578cd547105b4be2ed540935e50e95e44ef9204ac2d34862186int;
    let k7 = double_step(p, k6, x6, y6, u7, v7, x7, y7);
    let x8 = 0x3d38b1c0c66f51874e7fd89fe5a9c1fcfc236680c0afbf9d461a20404ca6d81fint;
    let y8 = 0x6a557a5fecdb3472a824ed6bbd1c8e73e159e6a2b59fe9f805a5039a1b808746int;
    let m8 = 0x760854e95b6c255db0dc3a0f3d43d98acc8a92f325798257c943a6fd623a8ef0int;
    let u8 = 0x706531b54183e183707f18d04f4b0db841b710788e04555e3d452c7fd8c8b16dint;
    let v8 = -0x706531b54183e183707f18d04f4b0db841b710788e04555e3d452c7fd8c8b16bint;
    let k8 = add_step(p, e, bx, by, k7, x7, y7, m8, u8, v8, x8, y8);
    let x9 = 0x93fbbfa99f64dc86cb4205e79c0b3efbd7144cc369d8b740c298bb94120e7dfint;
    let y9 = 0x7db56a89ccd1a70bd28f0aaa384b91ee26baa9321128324b4a66dc432a15822cint;
    let u9 = 0x27be8886454d82380b9e5a35f2eee4da178c7cb16222327e57b2ec7c9e80d11fint;
    let v9 = -0x27be8886454d82380b9e5a35f2eee4da178c7cb16222327e57b2ec7c9e80d11dint;
    let k9 = double_step(p, k8, x8, y8, u9, v9, x9, y9);
    let x10 = 0x249381815e4b1cba475fda1c544f5845a8f4115a73a124eac6c0f319a926fe59int;
    let y10 = 0x3a03adcf9dacfab38be8536b09881ca3170c9220b3469476b55c08c6a289b5f1int;
    let u10 = 0x7c739bdf457623a51566d11b7d9fafdd18f90b77003843eead01fa1267cc6b24int;
    let v10 = -0x7c739bdf457623a51566d11b7d9fafdd18f90b77003843eead01fa1267cc6b22int;
    let k10 = double_step(p, k9, x9, y9, u10, v10, x10, y10);
    let x11 = 0x6ae7e7952c5dce7537db7571a53051740dfaf89d4da25b4201912dc9278615deint;
    let y11 = 0x16f2d16d2759ca1e6937a253c1d101dbc89ef93eeb2b638a5ebe74337add37b4int;
    let u11 = 0x442c719ee190ade20fcdbde52c3905017ada91778b86a404c7395ec412bf5c5dint;
    let v11 = -0x442c719ee190ade20fcdbde52c3905017ada91778b86a404c7395ec412bf5c5bint;
    let k11 = double_step(p, k10, x10, y10, u11, v11, x11, y11);
    let x12 = 0x4cfa44c0c5be23dce4bab911fbcfb97fc89ecd6137a641c70c768654e99b2c25int;
    let y12 = 0x4c3b1bdd8fda8ad330e2c86e38b2bc8f5e8ea900ff3946d9964268d96eb01d9cint;
    let u12 = 0x6b1c668a71fa09ada6f677268702aae32a508583cec3304431f2e09fb3676113int;
    let v12 = -0x6b1c668a71fa09ada6f677268702aae32a508583cec3304431f2e09fb3676111int;
    let k12 = double_step(p, k11, x11, y11, u12, v12, x12, y12);
    let x13 = 0x358fefd55b1ef6950c5545e25fba92a7b21314844798cd6ca74a261e517458c2int;
    let y13 = 0x179011d184c51760c90200db40ce80f10447faca84c42fb5d0a8f101fe8d3aa3int;
    let m13 = 0x6e7fa689c732d7a450472e52dbf32d4dc1d2ea81604150de94bf24a839d16bbcint;
    let u13 = 0x7a2413e1a9e942f700e983997b75f62529ea377842d1967bbe02786719c91103int;
    let v13 = -0x7a2413e1a9e942f700e983997b75f62529ea377842d1967bbe02786719c91101int;
    let k13 = add_step(p, e, bx, by, k12, x12, y12, m13, u13, v13, x13, y13);
}

proof fn lemma_chain_21()
    requires
        multiple(0x80000000000000000000000000000000a6f7cef517bce6b2c0931int, 0x358fefd55b1ef6950c5545e25fba92a7b21314844798cd6ca74a261e517458c2int, 0x179011d184c51760c90200db40ce80f10447faca84c42fb5d0a8f101fe8d3aa3int),
    ensures
        multiple(0x80000000000000000000000000000000a6f7cef517bce6b2c09318dint, 0x7ea9dd8c6eec859f500b5a73dfdeaa73e360b4487e59d1eb78b60c3a2cf3936dint, 0x750f204980a75d94747bdd36a8e715dfe5a2867cda5c80b4833c4d1eceed552eint),
{
    let p = 0x7fffffffffffffffffffffffffffffffffffffffffffffffffffffffffffffedint;
    let e = 0x3788bdb44f8632d42d0dbee5eea1acc6136cf411e655624f55e48902c3bd5534int;
    let bx = 0x216936d3cd6e53fec0a4e231fdd6dc5c692cc7609525a7b2c9562d608f25d51aint;
    let by = 0x6666666666666666666666666666666666666666666666666666666666666658int;
    lemma_base();
    let x0 = 0x358fefd55b1ef6950c5545e25fba92a7b21314844798cd6ca74a261e517458c2int;
    let y0 = 0x179011d184c51760c90200db40ce80f10447faca84c42fb5d0a8f101fe8d3aa3int;
    let k0 = 0x80000000000000000000000000000000a6f7cef517bce6b2c0931int;
    let x1 = 0x683102a04269ffcab692df587caf2e9b41056b178a01eff3b5187f1cb431f463int;
    let y1 = 0x5242e39efa7997eed7af1a3dc14366feeaa17d1812377b0d429cca6f5408b23aint;
    let u1 = 0x23a9042c62ca0ac79430d805f6bd7cf782f38aa2408af7f4cae94fb180fb458int;
    let v1 = -0x23a9042c62ca0ac79430d805f6bd7cf782f38aa2408af7f4cae94fb180fb456int;
    let k1 = double_step(p, k0, x0, y0, u1, v1, x1, y1);
    let x2 = 0x3926bf21cba647fde8367602f0ff38c251405dd90cf2172dc4bf877511294a43int;
    let y2 = 0x74df064c09cac0feaccd1f1a52e21605469caa26ce0bfa95367df75b52399425int;
    let m2 = 0x454a1638de2bbadc4af7ad9d3b00e8f4a253b67b62a4d8964b067bf45a528621int;
    let u2 = 0x2555347f2067834eb125f9d7cb2103ef16491f9b860a3eebab1f66a92b75178bint;
    let v2 = -0x2555347f2067834eb125f9d7cb2103ef16491f9b860a3eebab1f66a92b751789int;
    let k2 = add_step(p, e, bx, by, k1, x1, y1, m2, u2, v2, x2, y2);
    let x3 = 0x69636b156dfb45574cefce501c97412f1bd9a32637fe427c32aeeb0900cc4666int;
    let y3 = 0x325b718ee3a989dc2143836aaf2aaac8045df1be322e4c7ab29aaec1ff03c3c1int;
    let u3 = 0x5593861370cc4bdc52f3701147581397e46771a564a1a18f2823f4a3f8d3004dint;
    let v3 = -0x5593861370cc4bdc52f3701147581397e46771a564a1a18f2823f4a3f8d3004bint;
    let k3 = double_step(p, k2, x2, y2, u3, v3, x3, y3);
    let x4 = 0x56ac2f28cb88eb654ee053238535e1811813791d23d0c7481ff2e86f8af419d9int;
    let y4 = 0x76200ea57cc69ae334d8625b0d22d96f140dd73f2f986350b2365b753a759060int;
    let u4 = 0x36e04ecb21f669e33bcb74d015451d60bfe4d4f1e3aa5d3dcc4dfd483621116eint;
    let v4 = -0x36e04ecb21f669e33bcb74d015451d60bfe4d4f1e3aa5d3dcc4dfd483621116cint;
    let k4 = double_step(p, k3, x3, y3, u4, v4, x4, y4);
    let x5 = 0x25fb7eb9993f0be9b5ef8641dd843f65354f8a61d26f2b12f016266929b12f31int;
    let y5 = 0x490fe8962f6ebfa75dfd14b3baf430e1ae9d51b73450086c69feb60e22ce937int;
    let u5 = 0x74392725575f0484f9fdc95e9f5712e4631b986389e80e53a4880b45e2b7440eint;
    let v5 = -0x74392725575f0484f9fdc95e9f5712e4631b986389e80e53a4880b45e2b7440cint;
    let k5 = double_step(p, k4, x4, y4, u5, v5, x5, y5);
    let x6 = 0x5cca363a50ffe6861e78963f556ebd1266f04e162f40e61238baadcce16b1062int;
    let y6 = 0x614330fcbd5ff656134bb6dbc0c74c87def250a24501c7e537aaf1c37d5a251int;
    let u6 = 0x7f5d42770b9bba804b1a9ee5dfff8230d2aa2f820a7d5f78b1c2d318fdf954dfint;
    let v6 = -0x7f5d42770b9bba804b1a9ee5dfff8230d2aa2f820a7d5f78b1c2d318fdf954ddint;
    let k6 = double_step(p, k5, x5, y5, u6, v6, x6, y6);
    let x7 = 0x724907c8333ce3e7fe289b3d85023f3923627328775985ea7014589228047415int;
    let y7 = 0x580c74f2b8ac90bfc706a71a01d17cba7ef573e456599ad3fae8dc10e5a332a0int;
    let m7 = 0x42eff06c9239a8beccb8378d472ef3553003a6682c4e2a055a0e27e5e60f0e96int;
    let u7 = 0x1e82003d33f143d2e60647b21c84967fb5e44efb2f6786e21d28dcc7dc257c22int;
    let v7 = -0x1e82003d33f143d2e60647b21c84967fb5e44efb2f6786e21d28dcc7dc257c20int;
    let k7 = add_step(p, e, bx, by, k6, x6, y6, m7, u7, v7, x7, y7);
    let x8 = 0x7faa5fb350d5c3c79744142d2bd9771bdd34065362e63d0a8b62796885d2d3fint;
    let y8 = 0x5167374e5fb889e0551618d46d8d54fc0fe66abd122ccf9f1bcb0612c530152cint;
    let u8 = 0x30d85d20a5153844adff8ad442c65b8a71a4133a60d6ea310cf309bd7f69aa3cint;
    let v8 = -0x30d85d20a5153844adff8ad442c65b8a71a4133a60d6ea310cf309bd7f69aa3aint;
    let k8 = double_step(p, k7, x7, y7, u8, v8, x8, y8);
    let x9 = 0x16c4caaffd215bdedfb2243cecee12a353eff2b64a1bbe9e558693b6b2757505int;
    let y9 = 0x57d1b65ed43756b07762d5ecc68aa569d793c0bcc2b30a2a34f6925ab3a90e42int;
    let m9 = 0x699e3054917b3524ecab49e7f36146b59f6c556011a6b9da3d30040c69d4992eint;
    let u9 = 0x6cb30925c8ea2ca4ddd9199052741b897d008cc05a3b01b1d694f57e51094b2cint;
    let v9 = -0x6cb30925c8ea2ca4ddd9199052741b897d008cc05a3b01b1d694f57e51094b2aint;
    let k9 = add_step(p, e, bx, by, k8, x8, y8, m9, u9, v9, x9, y9);
    let x10 = 0x5c06c7e88d0b85a578c4af131e5a384ae2afb95989cd94a16ddbed32aff746daint;
    let y10 = 0x4bf6905e70d4136517cc308490826686feb00b26fb0509a2436f6799f33b6463int;
    let u10 = 0x4299f1db68e804bce4f3e78ab1ec8f6c27abf07ce99a5eb9c2b87c7b45ab8150int;
    let v10 = -0x4299f1db68e804bce4f3e78ab1ec8f6c27abf07ce99a5eb9c2b87c7b45ab814eint;
    let k10 = double_step(p, k9, x9, y9, u10, v10, x10, y10);
    let x11 = 0x298018a61f967b6ff22127beaea95b04642d09c240c3302757a56d697dc528a9int;
    let y11 = 0x12a64c93fbc71bb71dbbd637d8b4a5c2570fc3c00c91628797390688255c428int;
    let u11 = 0x7c2747c45d31324943e9907ec1cab5ad262e876d81d79e5bef84c80d2e61e1c4int;
    let v11 = -0x7c2747c45d31324943e9907ec1cab5ad262e876d81d79e5bef84c80d2e61e1c2int;
    let k11 = double_step(p, k10, x10, y10, u11, v11, x11, y11);
    let x12 = 0x7ea9dd8c6eec859f500b5a73dfdeaa73e360b4487e59d1eb78b60c3a2cf3936dint;
    let y12 = 0x750f204980a75d94747bdd36a8e715dfe5a2867cda5c80b4833c4d1eceed552eint;
    let m12 = 0x49027f9d86faf03685a7cd15cbfb67f97698054920a3a948944714c9943cce38int;
    let u12 = 0x791cdf55fd19d3111ee98ac4c3a3050e8b2b8dece57e452133b818ca89aa139aint;
    let v12 = -0x791cdf55fd19d3111ee98ac4c3a3050e8b2b8dece57e452133b818ca89aa1398int;
    let k12 = add_step(p, e, bx, by, k11, x11, y11, m12, u12, v12, x12, y12);
}

proof fn lemma_chain_22()
    requires
        multiple(0x80000000000000000000000000000000a6f7cef517bce6b2c09318dint, 0x7ea9dd8c6eec859f500b5a73dfdeaa73e360b4487e59d1eb78b60c3a2cf3936dint, 0x750f204980a75d94747bdd36a8e715dfe5a2867cda5c80b4833c4d1eceed552eint),
    ensures
        multiple(0x80000000000000000000000000000000a6f7cef517bce6b2c09318d2eint, 0x2cf3886f6a491a82908fb5c7f1f70ca17af6b3c3693c68a7983ca594a46807f1int, 0x7736f811343ba794b09358937c0c4f248f81ad982f5794827b8708cd4529060eint),
{
    let p = 0x7fffffffffffffffffffffffffffffffffffffffffffffffffffffffffffffedint;
    let e = 0x3788bdb44f8632d42d0dbee5eea1acc6136cf411e655624f55e48902c3bd5534int;
    let bx = 0x216936d3cd6e53fec0a4e231fdd6dc5c692cc7609525a7b2c9562d608f25d51aint;
    let by = 0x6666666666666666666666666666666666666666666666666666666666666658int;
    lemma_base();
    let x0 = 0x7ea9dd8c6eec859f500b5a73dfdeaa73e360b4487e59d1eb78b60c3a2cf3936dint;
    let y0 = 0x750f204980a75d94747bdd36a8e715dfe5a2867cda5c80b4833c4d1eceed552eint;
    let k0 = 0x80000000000000000000000000000000a6f7cef517bce6b2c09318dint;
    let x1 = 0x66f242c7b5371371f0b7a8c2d55cbb84e7cc3914e7009c4a28419f9d2524efe5int;
    let y1 = 0x162c584f9c65ed317ea6449da312cba2655901d568d484b005671033d587b6daint;
    let u1 = 0xa7ec149b5efb443e9c0afe519950c0a8d4cf66622b829dafe6946ef2e1e3a76int;
    let v1 = -0xa7ec149b5efb443e9c0afe519950c0a8d4cf66622b829dafe6946ef2e1e3a74int;
    let k1 = double_step(p, k0, x0, y0, u1, v1, x1, y1);
    let x2 = 0x4a77ee4a439242155b3fb380e6eea18191f03808aa1c35e5085938a641ec0a8fint;
    let y2 = 0x52889d2e49c717360559c0513c6d41828180324413ab90487e40eac43f7b0a38int;
    let u2 = 0x22cdf252af0257f3e5c6865118b4c818702d563fab8e1a4abcf4f50ca87b28aint;
    let v2 = -0x22cdf252af0257f3e5c6865118b4c818702d563fab8e1a4abcf4f50ca87b288int;
    let k2 = double_step(p, k1, x1, y1, u2, v2, x2, y2);
    let x3 = 0x2da31ffd284a98174b33b0ff674c37e397cb83c5f78eb4382aebf181819b082int;
    let y3 = 0x42290115cb7b5283fd2807f1c8f2d830ea5f40dddfb024952eec31be261db0bdint;
    let u3 = 0x5906bcfc19f85fdde480a5ec3805ddf04128340396892870587cf0cc960b7198int;
    let v3 = -0x5906bcfc19f85fdde480a5ec3805ddf04128340396892870587cf0cc960b7196int;
    let k3 = double_step(p, k2, x2, y2, u3, v3, x3, y3);
    let x4 = 0x178a44f994ac35a0f3285af991983925240231b0c5bc6ff78040d42b3a19244aint;
    let y4 = 0x5bae1abcc2bb6ec3d4a2ecaa21b5dafc8f748a490908969a9fba9013196cc69bint;
    let m4 = 0x2aa93619061e661869a838630799630e0bcf7908c1421baa8c943dfb9002d1daint;
    let u4 = 0x5285ecf5ed0fbda6645ca211b448751d0f4d1e391aa725a2f64a7f5eb0ab4c7int;
    let v4 = -0x5285ecf5ed0fbda6645ca211b448751d0f4d1e391aa725a2f64a7f5eb0ab4c5int;
    let k4 = add_step(p, e, bx, by, k3, x3, y3, m4, u4, v4, x4, y4);
    let x5 = 0x4a2a3cb1d2e123cdb7acaa066fcc06b4e9df4569523f2ecda7aa810361a6f8dfint;
    let y5 = 0x55b73ab03479bb45e3237bed421d8acd78d2ce18c49e3bc0472512257cf60215int;
    let u5 = 0x2ef92d8a6571941e6809d23f14da0e55bbd6d0faf2b4e3b05027c114cd0c3ba0int;
    let v5 = -0x2ef92d8a6571941e6809d23f14da0e55bbd6d0faf2b4e3b05027c114cd0c3b9eint;
    let k5 = double_step(p, k4, x4, y4, u5, v5, x5, y5);
    let x6 = 0x16a935cb40748addde32a77d4243c7c884d8fb36e154840b241a413bef559fb0int;
    let y6 = 0x7edbc8c6b18860d800679eb62c587abff1d1d493846b268c3c47c920b20f8eadint;
    let u6 = 0x648e369a6cc18f6b3e446e649c74a5ba63738a56f20c629fe5e9c09674370e5bint;
    let v6 = -0x648e369a6cc18f6b3e446e649c74a5ba63738a56f20c629fe5e9c09674370e59int;
    let k6 = double_step(p, k5, x5, y5, u6, v6, x6, y6);
    let x7 = 0x4ee055e91309b6f547645c6f85527e5c23a43727ef49a5ed6978660091cdda85int;
    let y7 = 0x29b8f31b8c18339b0c821ada412c98f90295683923009af48b88086cb2bb3ac6int;
    let m7 = 0xce10c637d50e0054412674d76843b1aa68344854484d8a8f3f34cd60e0aa13int;
    let u7 = 0x503df08b80b72d4a1c6c27b365835472469e21caa3b46305b16e1f181e12da94int;
    let v7 = -0x503df08b80b72d4a1c6c27b365835472469e21caa3b46305b16e1f181e12da92int;
    let k7 = add_step(p, e, bx, by, k6, x6, y6, m7, u7, v7, x7, y7);
    let x8 = 0xaf00ca2523f45c288fb16396be01aa9f27fe635762b9239bd47414c4e0a5785int;
    let y8 = 0x2eb23871a6a9beb2e47ea66dbc6aacb2aac8d847f2cd1bf81c6eaeb5fb4b2f25int;
    let u8 = 0x25fd111726d5cbf1b2dedf9b6e0228f8f99838e6e03d67271de75c9b90d8af32int;
    let v8 = -0x25fd111726d5cbf1b2dedf9b6e0228f8f99838e6e03d67271de75c9b90d8af30int;
    let k8 = double_step(p, k7, x7, y7, u8, v8, x8, y8);
    let x9 = 0x5e92bef0f7f029935cc5a6405fc4e54e174b03b8b2ec8d1133d10fd5fff3a5d5int;
    let y9 = 0x87a5cbba647f2b4367bfa168afae5bbeb91c92206a3d3676d90bf01fc806dd2int;
    let m9 = 0x4acd47ee052c565103ea7b86a31ab0882e62fe6cee9b39ab1440cb2a54324afcint;
    let u9 = 0x797e4036f21b333031cbc724465276bc71ee0e9298ef90e5e1595b9935e14b7cint;
    let v9 = -0x797e4036f21b333031cbc724465276bc71ee0e9298ef90e5e1595b9935e14b7aint;
    let k9 = add_step(p, e, bx, by, k8, x8, y8, m9, u9, v9, x9, y9);
    let x10 = 0x688b06af67dd4fd90b0c582406114a5ce41aa75c3736ff207d76f56e529b1f29int;
    let y10 = 0x32f203a9b676ba97d7e640d2f3f5a7ee164c04df9fc0acfe97293149e357bf8int;
    let u10 = 0x2d8a6e7b3596a14985bd96f186037822806cb5098b86f0c988848eec04df9d09int;
    let v10 = -0x2d8a6e7b3596a14985bd96f186037822806cb5098b86f0c988848eec04df9d07int;
    let k10 = double_step(p, k9, x9, y9, u10, v10, x10, y10);
    let x11 = 0x4ed6c2cba2b42b67a03ade50c551ce59f1b53bfddd02ca8c156e33d4a0141e83int;
    let y11 = 0x7f822f1a849c0585e0a5478469d66d333fa0d9dafdca03c41782c6c42cdb518cint;
    let m11 = 0x48ac8e5dad700930e7cb7a14e87a86ed9124039c77ce928ed6375ea74f8de9afint;
    let u11 = 0x2e54ce14056591e8a2b9587b209b2859fe56a7b6057ba5a6e74dfd460e102ce9int;
    let v11 = -0x2e54ce14056591e8a2b9587b209b2859fe56a7b6057ba5a6e74dfd460e102ce7int;
    let k11 = add_step(p, e, bx, by, k10, x10, y10, m11, u11, v11, x11, y11);
    let x12 = 0x2cf3886f6a491a82908fb5c7f1f70ca17af6b3c3693c68a7983ca594a46807f1int;
    let y12 = 0x7736f811343ba794b09358937c0c4f248f81ad982f5794827b8708cd4529060eint;
    let u12 = 0x34be3e4c79b88536fdf4caf26b77e541eadbf0502b6df834949a5fbe9239a1c2int;
    let v12 = -0x34be3e4c79b88536fdf4caf26b77e541eadbf0502b6df834949a5fbe9239a1c0int;
    let k12 = double_step(p, k11, x11, y11, u12, v12, x12, y12);
}

proof fn lemma_chain_23()
    requires
        multiple(0x80000000000000000000000000000000a6f7cef517bce6b2c09318d2eint, 0x2cf3886f6a491a82908fb5c7f1f70ca17af6b3c3693c68a7983ca594a46807f1int, 0x7736f811343ba794b09358937c0c4f248f81ad982f5794827b8708cd4529060eint),
    ensures
        multiple(0x40000000000000000000000000000000537be77a8bde735960498c6973dint, 0x4072ca2307092495c01440e40b19aa130df7020ee0490dca1b5cf7f0b1270692int, 0x2e2d1296a1cdc3336897f9a3623403c7e128c95d7276337566f642b38054b1cfint),
{
    let p = 0x7fffffffffffffffffffffffffffffffffffffffffffffffffffffffffffffedint;
    let e = 0x3788bdb44f8632d42d0dbee5eea1acc6136cf411e655624f55e48902c3bd5534int;
    let bx = 0x216936d3cd6e53fec0a4e231fdd6dc5c692cc7609525a7b2c9562d608f25d51aint;
    let by = 0x6666666666666666666666666666666666666666666666666666666666666658int;
    lemma_base();
    let x0 = 0x2cf3886f6a491a82908fb5c7f1f70ca17af6b3c3693c68a7983ca594a46807f1int;
    let y0 = 0x7736f811343ba794b09358937c0c4f248f81ad982f5794827b8708cd4529060eint;
    let k0 = 0x80000000000000000000000000000000a6f7cef517bce6b2c09318d2eint;
    let x1 = 0x6f14406fe8b1e547c8f1c25311160d24b3626b6c500fd9bcc56fee9ac0cabc64int;
    let y1 = 0x3f89a9583eddb8c4144ef006276d0c72854e705bf853ed8397789b9cfcf0155cint;
    let u1 = 0x697e0f86265df479cb2f93f90fab73547ca04e3a0ae6cbdda0bd0802f804b01aint;
    let v1 = -0x697e0f86265df479cb2f93f90fab73547ca04e3a0ae6cbdda0bd0802f804b018int;
    let k1 = double_step(p, k0, x0, y0, u1, v1, x1, y1);
    let x2 = 0x6861e6dcaccc63a8ae0af4f7ad76fc7e6ef61d5cc1770c2d1ac1b24d84bb2ad9int;
    let y2 = 0x367dd71b8d62cb058e4b9f7ea858285438eefa2c41fc59c47e9144c85378a31cint;
    let u2 = 0xa901f1759848400abce6abdb96604e7bb4fc6c0bab85e483a79f5994e8b8e26int;
    let v2 = -0xa901f1759848400abce6abdb96604e7bb4fc6c0bab85e483a79f5994e8b8e24int;
    let k2 = double_step(p, k1, x1, y1, u2, v2, x2, y2);
    let x3 = 0x17d5a2bbcb05b5b3002253acbe17a80dc97db9473135481d1295764866541a14int;
    let y3 = 0x16057d9536dd8a7817009371eea615886335141ab09e787a413f13f47cf45386int;
    let m3 = 0x1a1d5b7c1637036da7ae6f9b75c097c9c0e1e68aa13274569d154910d977e21bint;
    let u3 = 0x4d25bd15d0ddd06e0b42c32b10f6846befdce754c48d316aefbe9d6485f630c5int;
    let v3 = -0x4d25bd15d0ddd06e0b42c32b10f6846befdce754c48d316aefbe9d6485f630c3int;
    let k3 = add_step(p, e, bx, by, k2, x2, y2, m3, u3, v3, x3, y3);
    let x4 = 0x2b287d9bc5dbf2cd1c97ac6c60393a1b42287b92d2e6ce1158d7b38d612280ecint;
    let y4 = 0x6d3723de53b33fc048bc64d2aef1a6c1c25190d5e6c0a46401b0de7e3843192dint;
    let u4 = 0x528165e9399e2a4809a6e944b2522920df0525fc5006462be840e907ccd789daint;
    let v4 = -0x528165e9399e2a4809a6e944b2522920df0525fc5006462be840e907ccd789d8int;
    let k4 = double_step(p, k3, x3, y3, u4, v4, x4, y4);
    let x5 = 0x74e11bb98d2a572104c97309804089fbb7d1a548759cf4a0fc33da88ee1e1d61int;
    let y5 = 0x5d7538af8c5697ffc3f1a4e5696d0a0a86e709bcdd50a100aa86d575a097a508int;
    let m5 = 0x3eddfa566e9ba760b0bc5f2d34abb2adab36f79ffd094d8b40ff25d13b89c5a6int;
    let u5 = 0x9573f698c88c9f462a5db25fa3c7e3bd4e90a9ca0706228924052d18eeab74aint;
    let v5 = -0x9573f698c88c9f462a5db25fa3c7e3bd4e90a9ca0706228924052d18eeab748int;
    let k5 = add_step(p, e, bx, by, k4, x4, y4, m5, u5, v5, x5, y5);
    let x6 = 0xa0fe3cfdfec6d36afc4785058cdd0d1dbe695a9a5ad1cd62b1087bb3e5580bbint;
    let y6 = 0x4afada738059fb6094506d77caa7724ffbbb84a1e5a4201be3e4c103e63d4b63int;
    let u6 = 0x45d5f4934730976a0068558ace91bbc74f53b0f1e7e1abdfb5d3c19f8e889755int;
    let v6 = -0x45d5f4934730976a0068558ace91bbc74f53b0f1e7e1abdfb5d3c19f8e889753int;
    let k6 = double_step(p, k5, x5, y5, u6, v6, x6, y6);
    let x7 = 0x370bcf4298c4b947db56858fbe568c30713cf574eec932afc018a10a6c1be5d1int;
    let y7 = 0x7e5e1c984288fd7733f48baf3e6599228b7a58cdb3a919e2eb92b55a985b733int;
    let m7 = 0x4de8381c47073793959eab7359e7ce3d24afe5ff2fbe82a895de0002a23f98a9int;
    let u7 = 0x4c503bfdde16eab932577fa9f421e492fd5d776105b405c30047a1aedb782da6int;
    let v7 = -0x4c503bfdde16eab932577fa9f421e492fd5d776105b405c30047a1aedb782da4int;
    let k7 = add_step(p, e, bx, by, k6, x6, y6, m7, u7, v7, x7, y7);
    let x8 = 0x3deb7508625a9a1a61304a9bd0554659cb04cfa9a82664f4cd7f609a8899ce46int;
    let y8 = 0x42f18d7b22c43aff8f1bb904b275413d6e3e2efd551297c93e5e4abdd554d91int;
    let u8 = 0x3595f91403208c29ef7fc689b5c68813a9a19f851f7d026cf7d4ae151efd4b91int;
    let v8 = -0x3595f91403208c29ef7fc689b5c68813a9a19f851f7d026cf7d4ae151efd4b8fint;
    let k8 = double_step(p, k7, x7, y7, u8, v8, x8, y8);
    let x9 = 0x60ac863b4b74c2679e54e63280dd1aa1707a245f08b0bf5b6429d6e8c968edf2int;
    let y9 = 0x2066210dd3c343b296ac9c8286c289584b74dc5003233d5134aa149e8577d81cint;
    let m9 = 0x17a886fb554321b919c332c804409469fbfc47e9195b5ec406c1985b5a42f52bint;
    let u9 = 0x161e7c19fc90580bc041badc89fce54f9aebfbe896d7a32818cd09285233613dint;
    let v9 = -0x161e7c19fc90580bc041badc89fce54f9aebfbe896d7a32818cd09285233613bint;
    let k9 = add_step(p, e, bx, by, k8, x8, y8, m9, u9, v9, x9, y9);
    let x10 = 0x640489281d9dbabf4c72ef95b3c730d5967097fadeba0deb375dcb8e4542ed66int;
    let y10 = 0x3521fd49d2dfd164cb226b717d9deca16ce8deb0676e923f6aa6c6b5f974d2e2int;
    let u10 = 0x77207f3bbeccb1491dc4908616e40b17d0dfa5a1f73d58af111278c577402ce8int;
    let v10 = -0x77207f3bbeccb1491dc4908616e40b17d0dfa5a1f73d58af111278c577402ce6int;
    let k10 = double_step(p, k9, x9, y9, u10, v10, x10, y10);
    let x11 = 0x6bed9bda7a0757ba55772bd79d55ba3f192875dd53a26c000e6136ae4a33dcfcint;
    let y11 = 0x4323452515812eec775a96c27a48c75a4a5d592548e3598d629b23acd498cb3eint;
    let u11 = 0x7ea4ef8a353df5286d10e5d44ce130fa4a9b1c1eb4bd7082095ab215437330b8int;
    let v11 = -0x7ea4ef8a353df5286d10e5d44ce130fa4a9b1c1eb4bd7082095ab215437330b6int;
    let k11 = double_step(p, k10, x10, y10, u11, v11, x11, y11);
    let x12 = 0x4072ca2307092495c01440e40b19aa130df7020ee0490dca1b5cf7f0b1270692int;
    let y12 = 0x2e2d1296a1cdc3336897f9a3623403c7e128c95d7276337566f642b38054b1cfint;
    let m12 = 0x880a2eb9b5a08929a538e28b5e299674ad4eb3a855e77659b89170830520c26int;
    let u12 = 0x6f6c922044b3aea7389f6560403b90af6648a142d17476b378ac4862f631ebd8int;
    let v12 = -0x6f6c922044b3aea7389f6560403b90af6648a142d17476b378ac4862f631ebd6int;
    let k12 = add_step(p, e, bx, by, k11, x11, y11, m12, u12, v12, x12, y12);
}

proof fn lemma_chain_24()
    requires
        multiple(0x40000000000000000000000000000000537be77a8bde735960498c6973dint, 0x4072ca2307092495c01440e40b19aa130df7020ee0490dca1b5cf7f0b1270692int, 0x2e2d1296a1cdc3336897f9a3623403c7e128c95d7276337566f642b38054b1cfint),
    ensures
        multiple(0x40000000000000000000000000000000537be77a8bde735960498c6973d74int, 0x56cef4beeb3de11659875735371548b600de8b9731d9e43dcaa87506596b7b3eint, 0x58946677980578b96c24485081813dc5717a301b171f0e2a1ddb736d45e09dd0int),
{
    let p = 0x7fffffffffffffffffffffffffffffffffffffffffffffffffffffffffffffedint;
    let e = 0x3788bdb44f8632d42d0dbee5eea1acc6136cf411e655624f55e48902c3bd5534int;
    let bx = 0x216936d3cd6e53fec0a4e231fdd6dc5c692cc7609525a7b2c9562d608f25d51aint;
    let by = 0x6666666666666666666666666666666666666666666666666666666666666658int;
    lemma_base();
    let x0 = 0x4072ca2307092495c01440e40b19aa130df7020ee0490dca1b5cf7f0b1270692int;
    let y0 = 0x2e2d1296a1cdc3336897f9a3623403c7e128c95d7276337566f642b38054b1cfint;
    let k0 = 0x40000000000000000000000000000000537be77a8bde735960498c6973dint;
    let x1 = 0x380330e076d41f5710d318e2c62831386291e946d5b01f3806667f1b1905b247int;
    let y1 = 0x7ce980220bfd77879ff3311357c77e1d52febfe38f1fe80fd39674350dedcb48int;
    let u1 = 0x1a8872e721f66f489e009d1848e81da6c727c476399db43916bd542b617a5ecfint;
    let v1 = -0x1a8872e721f66f489e009d1848e81da6c727c476399db43916bd542b617a5ecdint;
    let k1 = double_step(p, k0, x0, y0, u1, v1, x1, y1);
    let x2 = 0x49fe5b2879037c9f07296b84fd5d7bd9bc099187c28f75ce3b9bca634419b046int;
    let y2 = 0x2c32560ac1304b92f92acba35b884964535b251cb07ec0c82c491bdb37db5dd0int;
    let u2 = 0x6b0d6bad0183de1dbc831945c42ecf665334f0380f77e586ecf8542641ff83e6int;
    let v2 = -0x6b0d6bad0183de1dbc831945c42ecf665334f0380f77e586ecf8542641ff83e4int;
    let k2 = double_step(p, k1, x1, y1, u2, v2, x2, y2);
    let x3 = 0x31a0a560746de42769d0c44e3c6344d1e84772dd31ce08738a2a66f77940c66fint;
    let y3 = 0x77f93c57c573ef2daf660a25ded3ac7fd1de802d9a617489061fe0d9e5146ce5int;
    let m3 = 0x31c0332a0e98aa7b7a4baf8b59eee857440b2949e4598931e850596d6cd9d2caint;
    let u3 = 0x7d8313f168a8296e73c3496263721e0d31cd0d34500e17945bd070079dd537bcint;
    let v3 = -0x7d8313f168a8296e73c3496263721e0d31cd0d34500e17945bd070079dd537baint;
    let k3 = add_step(p, e, bx, by, k2, x2, y2, m3, u3, v3, x3, y3);
    let x4 = 0x3ee80a03b17f2c62046996ba657ffce17e43e19b6c743f05170f2be05207829fint;
    let y4 = 0x6f6961e72ed154c47318d043cf21e808a84492afb1a6d37baabdcf700479314bint;
    let u4 = 0x350c68f9be01d4096d7cc89564bc64e3cbcf4ee34e504bab8b6f9f6740dfcd16int;
    let v4 = -0x350c68f9be01d4096d7cc89564bc64e3cbcf4ee34e504bab8b6f9f6740dfcd14int;
    let k4 = double_step(p, k3, x3, y3, u4, v4, x4, y4);
    let x5 = 0x395a3769c37a6d028355b3a8d943cdc6319677e936133e0af09fc61de3e227eint;
    let y5 = 0x46ecb145656b72ae77a28f686fe70a2a1bec1967f0f675b24f9e70fb5e2ab119int;
    let m5 = 0x392fd568a90979d92e1cae239a0bc81ade812d265b0976ed5a42777369c6db44int;
    let u5 = 0x5607ba61f4e4bcf04360f61a2e754d5dc1ab4e437458ba1987b1ce975cbb9282int;
    let v5 = -0x5607ba61f4e4bcf04360f61a2e754d5dc1ab4e437458ba1987b1ce975cbb9280int;
    let k5 = add_step(p, e, bx, by, k4, x4, y4, m5, u5, v5, x5, y5);
    let x6 = 0x4c04ca05843708a77c4ae34c57317cb515b5d61af842183e712c5b08e640dd1eint;
    let y6 = 0x4bb9abdd73041eb33e312408dbee94619914c028f07ee39ba994c15c78c2cff3int;
    let u6 = 0x3777c921a92a88fd6c3522933dd3b1173f4a8c507e498658480742d7b88bc26bint;
    let v6 = -0x3777c921a92a88fd6c3522933dd3b1173f4a8c507e498658480742d7b88bc269int;
    let k6 = double_step(p, k5, x5, y5, u6, v6, x6, y6);
    let x7 = 0x3fc42d1dc578fb470be8333c0a0c28c174578958cc0612be1e723a2955f001faint;
    let y7 = 0x1594a187c1f55ebe2760df470d49b1201a51badddc729d8560c7720ab121c870int;
    let m7 = 0x27e9fb651171764799e99a8d4bb0d77d169908fb331eb3464cabbbd9e36a20baint;
    let u7 = 0x41efb4be1f1d73d1b35cfa837bb0feae346c79cbe1f0e04bbfbef7adf92eeeb3int;
    let v7 = -0x41efb4be1f1d73d1b35cfa837bb0feae346c79cbe1f0e04bbfbef7adf92eeeb1int;
    let k7 = add_step(p, e, bx, by, k6, x6, y6, m7, u7, v7, x7, y7);
    let x8 = 0x52ebcce638e343d8c62d073aeb28fd127cb4015ce583df5c0428850d13854ed5int;
    let y8 = 0x5827e6a85b700fcabe143bd3367151996257355e3ef9bbc51c23a04007c7aafint;
    let u8 = 0x3a4307d8a3b09a9e2c9635566a85a8180df75f380f718dd87856e62374da7bc0int;
    let v8 = -0x3a4307d8a3b09a9e2c9635566a85a8180df75f380f718dd87856e62374da7bbeint;
    let k8 = double_step(p, k7, x7, y7, u8, v8, x8, y8);
    let x9 = 0x328311710f4fb7e4374e61af0f01b4113f06478707a376344865f40d0e358428int;
    let y9 = 0x36017a5ecfff82eb0417cb5812ea6be1b9938bfa3cbd527aea3bb5319c91a089int;
    let u9 = 0x63f7fdd368047a5a544b65f7a70b63d004151a4a32c357404d5bfef19a957e8cint;
    let v9 = -0x63f7fdd368047a5a544b65f7a70b63d004151a4a32c357404d5bfef19a957e8aint;
    let k9 = double_step(p, k8, x8, y8, u9, v9, x9, y9);
    let x10 = 0x228186ee051ff14e229513ae97e899bbbe33c3eeba62e25aa187da793bf7bc63int;
    let y10 = 0x39af13cdc3e32d11a6c4f51df741f5696a1d8a54d741c6d47db65297ecd0e730int;
    let m10 = 0x45fb8e432d6eda0db44bef654208112b974aa696729f7621a569dc0b909c1c55int;
    let u10 = 0x1ab501c97adfceda01f0dc235f703f893bb97291d8e9e78bf883beb4f22f2ef6int;
    let v10 = -0x1ab501c97adfceda01f0dc235f703f893bb97291d8e9e78bf883beb4f22f2ef4int;
    let k10 = add_step(p, e, bx, by, k9, x9, y9, m10, u10, v10, x10, y10);
    let x11 = 0x126ff0067107bd59d0bda2d954adcfb19be1ca45d169f90f3b24b0dffce5b635int;
    let y11 = 0x1fdc65578c8cfef58cd7f54fc29250b0fe8c16eb55f575e4486fb632f956bb80int;
    let u11 = 0x14e2d0b97cb09f07d6cfc4ef097c95837e2bdd0cd8880edf53eb3a81204d0396int;
    let v11 = -0x14e2d0b97cb09f07d6cfc4ef097c95837e2bdd0cd8880edf53eb3a81204d0394int;
    let k11 = double_step(p, k10, x10, y10, u11, v11, x11, y11);
    let x12 = 0x56cef4beeb3de11659875735371548b600de8b9731d9e43dcaa87506596b7b3eint;
    let y12 = 0x58946677980578b96c24485081813dc5717a301b171f0e2a1ddb736d45e09dd0int;
    let u12 = 0x397864eb2332c9dfda5bafc36a17b3ae7eeb367fb86961fce6fa4dfedc424eedint;
    let v12 = -0x397864eb2332c9dfda5bafc36a17b3ae7eeb367fb86961fce6fa4dfedc424eebint;
    let k12 = double_step(p, k11, x11, y11, u12, v12, x12, y12);
}

proof fn lemma_chain_25()
    requires
        multiple(0x40000000000000000000000000000000537be77a8bde735960498c6973d74int, 0x56cef4beeb3de11659875735371548b600de8b9731d9e43dcaa87506596b7b3eint, 0x58946677980578b96c24485081813dc5717a301b171f0e2a1ddb736d45e09dd0int),
    ensures
        multiple(0x2000000000000000000000000000000029bdf3bd45ef39acb024c634b9eba7dint, 0x21cdae766ce224df7fd3bc19808aaca3cfcba0937207293a829ba24b72076893int, 0x1f79538392eef08604bdf033b0463f84aed9bb14c2d64cd526bc426731bf52a1int),
{
    let p = 0x7fffffffffffffffffffffffffffffffffffffffffffffffffffffffffffffedint;
    let e = 0x3788bdb44f8632d42d0dbee5eea1acc6136cf411e655624f55e48902c3bd5534int;
    let bx = 0x216936d3cd6e53fec0a4e231fdd6dc5c692cc7609525a7b2c9562d608f25d51aint;
    let by = 0x6666666666666666666666666666666666666666666666666666666666666658int;
    lemma_base();
    let x0 = 0x56cef4beeb3de11659875735371548b600de8b9731d9e43dcaa87506596b7b3eint;
    let y0 = 0x58946677980578b96c24485081813dc5717a301b171f0e2a1ddb736d45e09dd0int;
    let k0 = 0x40000000000000000000000000000000537be77a8bde735960498c6973d74int;
    let x1 = 0x6339bd5e48f6968063fd45554ec9624b8605c360d7a16157c09fb9c9c05abfb9int;
    let y1 = 0x36b326b9843e99e1dab3790d57cd881c52038b00348327d1b0dab33996a6c38int;
    let u1 = 0x5b672f69379eab5b4cbb9c8486bd2349600cc40f8b1fda4b6952b9fc2f88f1ceint;
    let v1 = -0x5b672f69379eab5b4cbb9c8486bd2349600cc40f8b1fda4b6952b9fc2f88f1ccint;
    let k1 = double_step(p, k0, x0, y0, u1, v1, x1, y1);
    let x2 = 0x27e9c2fe99996175741f39ee4d2a4b9bcbdd3b9d0f085578158446374ede2610int;
    let y2 = 0x39d0bf89176407e509751b209057d9e829abd76cc76980472d43571c0ff629aint;
    let m2 = 0x7c450d3e89d4efeca0b538974ee6f260743ea5a0e76d6aa99d12c70b71eaabint;
    let u2 = 0x4434b386acd55e720b53c78540d42db8a237b558deba0fa2e960668a8b2c4559int;
    let v2 = -0x4434b386acd55e720b53c78540d42db8a237b558deba0fa2e960668a8b2c4557int;
    let k2 = add_step(p, e, bx, by, k1, x1, y1, m2, u2, v2, x2, y2);
    let x3 = 0x4b7d5c60cf89942e0ce995845e04a7c74364d946df62017f0529a268df514c8fint;
    let y3 = 0x1dcc34a8875338b5190a2a2a2fcdca91a4563842ab2a0b1b3e3cf41afa5aa9a1int;
    let u3 = 0x74890e5ca8a560104ec12ef033c9383e6da2cd7f231e6cc168b4fac7c9c534f5int;
    let v3 = -0x74890e5ca8a560104ec12ef033c9383e6da2cd7f231e6cc168b4fac7c9c534f3int;
    let k3 = double_step(p, k2, x2, y2, u3, v3, x3, y3);
    let x4 = 0x375a0f20a93ea76c70e80fefdd456ae685fcf3349d755b1df071b840af853d22int;
    let y4 = 0x2dce56ff34ad037accb51ee0bc417a265015d300e7bb54fb9b5325a0b09b9268int;
    let m4 = 0x32dc5ca4b8e5def340cc3aaa13122f0e3ca3c0406fcf2e10afb8379d3dfc0a7fint;
    let u4 = 0x34fd34f8d43d0582e63513d0ef0b87bdd00df76b5e322f8567b96b4919984f67int;
    let v4 = -0x34fd34f8d43d0582e63513d0ef0b87bdd00df76b5e322f8567b96b4919984f65int;
    let k4 = add_step(p, e, bx, by, k3, x3, y3, m4, u4, v4, x4, y4);
    let x5 = 0x6b73d4556029f3725947073e053e2c09edfbc99feb75f88647b6be5cc38bda8cint;
    let y5 = 0x20ef2570ca0845e6c36ac67a502f0411b3b7e05c6fccc1d3f82ac1759dd278c7int;
    let u5 = 0x55690b979bf4647f56419a6a2f4b01b288535f213d1e7d75786c0fd9647beb26int;
    let v5 = -0x55690b979bf4647f56419a6a2f4b01b288535f213d1e7d75786c0fd9647beb24int;
    let k5 = double_step(p, k4, x4, y4, u5, v5, x5, y5);
    let x6 = 0x38459e63fb98571ab2668db30bb67ecc7b0c716b847647a9b2553dcaabab3375int;
    let y6 = 0x160299ff850bc2f8d941dd0600c03a895e23dc140901602e615417142863e287int;
    let m6 = 0x368e3fbb891f50e43ca4ab05b60360c066bbadb5ba6ff15731ff2b8bdbcb062fint;
    let u6 = 0x65a9d6c8b36794189540a0021b68927ecf23bc40095dd8a6bc077f7384abda40int;
    let v6 = -0x65a9d6c8b36794189540a0021b68927ecf23bc40095dd8a6bc077f7384abda3eint;
    let k6 = add_step(p, e, bx, by, k5, x5, y5, m6, u6, v6, x6, y6);
    let x7 = 0x55d5275b9aa56c8bc46f8cabfe93561e1ef13e129302b6e33d329d41fc7bc7b7int;
    let y7 = 0x3a8fb1f9b60a7058ac3550da6f683e9b88b314e375e91066c30dd6dad880430aint;
    let u7 = 0x50bd0dbca58a1545caca1e45292f5d788d52742485e5e8260c028e291b27a313int;
    let v7 = -0x50bd0dbca58a1545caca1e45292f5d788d52742485e5e8260c028e291b27a311int;
    let k7 = double_step(p, k6, x6, y6, u7, v7, x7, y7);
    let x8 = 0x412d51c6b5b0333b9d32566a0f718f293c065d203e47596c487fc9a4146ac646int;
    let y8 = 0x11caa89538d4b46efb1217596c925cd0af5c74b79d38e8af9f7e4f166a40ae2cint;
    let m8 = 0x3e5addf89b3e395a0b0d53bfcb9e186ce3d924a2e57f36721e7009f253f53d6dint;
    let u8 = 0x28507aa668454a0a88563a29b2b47f50c64819af34209ef2821b0b2237f2339fint;
    let v8 = -0x28507aa668454a0a88563a29b2b47f50c64819af34209ef2821b0b2237f2339dint;
    let k8 = add_step(p, e, bx, by, k7, x7, y7, m8, u8, v8, x8, y8);
    let x9 = 0x5a086ffe05a6f60498a22be4d54a28b25af83d8e3ea560944df17f3d612b445fint;
    let y9 = 0x73e95e54d53f191a304649934be5aabe07e6fc5042ef09999188a7c44e12780eint;
    let u9 = 0x6d06b6b5d82464f6da38fc4ba22d68af732cc133e47de6b16112e5dae9f0ef78int;
    let v9 = -0x6d06b6b5d82464f6da38fc4ba22d68af732cc133e47de6b16112e5dae9f0ef76int;
    let k9 = double_step(p, k8, x8, y8, u9, v9, x9, y9);
    let x10 = 0x1ffcdc8bcc51d1246590fd631cd3a526361f0932ab0ebbb438c64294cbd70364int;
    let y10 = 0x1fc2b3171576f992c236ea77cfbbed6a052c069e2bc0adcffbccb12a9f7fb1d6int;
    let m10 = 0x3df00aaafd700a12faa68a484125564a7c4b0ebeffdfc3d770e66bccfe8e837bint;
    let u10 = 0x3c6416eafb557dd8d920ce39b4f74fbda333203d17bab454429351cb08176547int;
    let v10 = -0x3c6416eafb557dd8d920ce39b4f74fbda333203d17bab454429351cb08176545int;
    let k10 = add_step(p, e, bx, by, k9, x9, y9, m10, u10, v10, x10, y10);
    let x11 = 0x4af762006e067bd7707b0505a2adf2abd41594c22edbb8fe8d046bc64af26047int;
    let y11 = 0x198f81851e18375709ef4a9655dc8ca113830cb8222ad99ecc0a475c45ad0f0dint;
    let u11 = 0x1937c13aa13277767e847790e89f51b25fd9f8459a47212407a09d0bbbc4107aint;
    let v11 = -0x1937c13aa13277767e847790e89f51b25fd9f8459a47212407a09d0bbbc41078int;
    let k11 = double_step(p, k10, x10, y10, u11, v11, x11, y11);
    let x12 = 0x7289de2a1aa59d6868fd8a781c8569b7a6b8dae7e72abdc6f80ffa1357e18590int;
    let y12 = 0xed20ec5c8da185846e46fb71b9f593a8b0279693c21e8586b38588bf8eb2390int;
    let u12 = 0x3315df1d5ac681a6622d87b9b516b9a4670bc887bdab3ef86958c49eb4df19dcint;
    let v12 = -0x3315df1d5ac681a6622d87b9b516b9a4670bc887bdab3ef86958c49eb4df19daint;
    let k12 = double_step(p, k11, x11, y11, u12, v12, x12, y12);
    let x13 = 0x21cdae766ce224df7fd3bc19808aaca3cfcba0937207293a829ba24b72076893int;
    let y13 = 0x1f79538392eef08604bdf033b0463f84aed9bb14c2d64cd526bc426731bf52a1int;
    let m13 = 0x5e503e99dd58cdc8fdd4eac1c84c8fd28ee033a2a4f4e3f5c4621e2f6ecdd03int;
    let u13 = 0x4e66714a76c3be83e8fd25d8747190db1f2b542bc8e4f0dbdf64dadc515e28bdint;
    let v13 = -0x4e66714a76c3be83e8fd25d8747190db1f2b542bc8e4f0dbdf64dadc515e28bbint;
    let k13 = add_step(p, e, bx, by, k12, x12, y12, m13, u13, v13, x13, y13);
}

proof fn lemma_chain_26()
    requires
        multiple(0x2000000000000000000000000000000029bdf3bd45ef39acb024c634b9eba7dint, 0x21cdae766ce224df7fd3bc19808aaca3cfcba0937207293a829ba24b72076893int, 0x1f79538392eef08604bdf033b0463f84aed9bb14c2d64cd526bc426731bf52a1int),
    ensures
        multiple(0x1000000000000000000000000000000014def9dea2f79cd65812631a5cf5d3edint, 0x0int, 0x1int),
{
    let p = 0x7fffffffffffffffffffffffffffffffffffffffffffffffffffffffffffffedint;
    let e = 0x3788bdb44f8632d42d0dbee5eea1acc6136cf411e655624f55e48902c3bd5534int;
    let bx = 0x216936d3cd6e53fec0a4e231fdd6dc5c692cc7609525a7b2c9562d608f25d51aint;
    let by = 0x6666666666666666666666666666666666666666666666666666666666666658int;
    lemma_base();
    let x0 = 0x21cdae766ce224df7fd3bc19808aaca3cfcba0937207293a829ba24b72076893int;
    let y0 = 0x1f79538392eef08604bdf033b0463f84aed9bb14c2d64cd526bc426731bf52a1int;
    let k0 = 0x2000000000000000000000000000000029bdf3bd45ef39acb024c634b9eba7dint;
    let x1 = 0x6f3c1d580aeb7f18c348ea816ae11eb718d7ea96339f249050401396b8d8e542int;
    let y1 = 0x7a73c23898bd39a42096eb9cdbd5d3d60ae4d9badb4baed7016a4449f89863ebint;
    let u1 = 0x308b8555640281d16fb5c49d88af58dff0dbb309ffe9604d4d3dd34e6987a419int;
    let v1 = -0x308b8555640281d16fb5c49d88af58dff0dbb309ffe9604d4d3dd34e6987a417int;
    let k1 = double_step(p, k0, x0, y0, u1, v1, x1, y1);
    let x2 = 0x72ae998b572929f5fd20ba2adfd10c7afbc9bbe9d0d93cf8cfa51130afe990f6int;
    let y2 = 0x1a17d98da7bd9ac5fb755c2cf8fb2b36735a9264b9ef1043ad4d065381dc693eint;
    let m2 = 0x1e2abd65ca0addab56f7f2d21c59ec116fdfd8adc336ecc08a40954c79d0a5a9int;
    let u2 = 0x5848094f60222ff2d488f3980ad5860631eda24f1416477e0c0dff97400b5b92int;
    let v2 = -0x5848094f60222ff2d488f3980ad5860631eda24f1416477e0c0dff97400b5b90int;
    let k2 = add_step(p, e, bx, by, k1, x1, y1, m2, u2, v2, x2, y2);
    let x3 = 0x306ad5575ae1e840c8d3df2438a96bd29617e302bf0cb269412f64c0b859c3e0int;
    let y3 = 0x70bc44e7a355558547bffef8b575aa3b8b9aa81ae3c89c30c6b22103079919acint;
    let u3 = 0x73253fd7654f797de42e39bfcd74f5c117398a604af2513fb2b6deddab66b79fint;
    let v3 = -0x73253fd7654f797de42e39bfcd74f5c117398a604af2513fb2b6deddab66b79dint;
    let k3 = double_step(p, k2, x2, y2, u3, v3, x3, y3);
    let x4 = 0x5e96c92c3291ac013f5b1dce022923a396d3389f6ada584d36a9d29f70da2ad3int;
    let y4 = 0x6666666666666666666666666666666666666666666666666666666666666658int;
    let u4 = 0x2bb84ef183b12b7c727bf2d7de62a9ab623d5e2042fec2705bfc0321c82409b4int;
    let v4 = -0x2bb84ef183b12b7c727bf2d7de62a9ab623d5e2042fec2705bfc0321c82409b2int;
    let k4 = double_step(p, k3, x3, y3, u4, v4, x4, y4);
    let x5 = 0x0int;
    let y5 = 0x1int;
    let m5 = 0x1878a0f02874899a9915b1719b541c82df0f607f88aead0a9221754c5a48224aint;
    let u5 = 0x67fa224cb6e20f56aa71d14455fd7aa1005e7d9d0adfe55eb0b99e8a642fca76int;
    let v5 = -0x67fa224cb6e20f56aa71d14455fd7aa1005e7d9d0adfe55eb0b99e8a642fca74int;
    let k5 = add_step(p, e, bx, by, k4, x4, y4, m5, u5, v5, x5, y5);
}

/// The group order times the base point is the neutral element.
pub proof fn lemma_basepoint_order()
    ensures
        curve::smul(scalar::group_order(), curve::basepoint()) == curve::identity(),
{
    curve::lemma_basepoint_on_curve();
    curve::lemma_smul_base(curve::basepoint());
    assert(multiple(1, 0x216936d3cd6e53fec0a4e231fdd6dc5c692cc7609525a7b2c9562d608f25d51aint, 0x6666666666666666666666666666666666666666666666666666666666666658int)) by {
        reveal(multiple);
        reveal(curve::basepoint);
    }
    lemma_chain_0();
    lemma_chain_1();
    lemma_chain_2();
    lemma_chain_3();
    lemma_chain_4();
    lemma_chain_5();
    lemma_chain_6();
    lemma_chain_7();
    lemma_chain_8();
    lemma_chain_9();
    lemma_chain_10();
    lemma_chain_11();
    lemma_chain_12();
    lemma_chain_13();
    lemma_chain_14();
    lemma_chain_15();
    lemma_chain_16();
    lemma_chain_17();
    lemma_chain_18();
    lemma_chain_19();
    lemma_chain_20();
    lemma_chain_21();
    lemma_chain_22();
    lemma_chain_23();
    lemma_chain_24();
    lemma_chain_25();
    lemma_chain_26();
    reveal(multiple);
}

} // verus!
